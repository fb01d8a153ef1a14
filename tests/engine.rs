use std::cmp::Ordering;
use std::time::Instant;

use netview::app::App;
use netview::dns::DnsCache;
use netview::entry::ConnectionEntry;
use netview::event::{intent_for_key, AppEvent, KeyPress};
use netview::filter::{should_show, IpAddress, IpVersionFilter, ProtocolFilter, RawSocket, SocketDetail};
use netview::process::{join_with_spaces, process_info_to_rows, ProcessDetails};
use netview::selection::{find_next, find_previous, position_of, reconcile_scroll};
use netview::sort::{
    remote_port_compare, sort_entries, string_compare_with_empty, SortColumn, SortOrder,
};
use netview::text::{compare_text, push_decimal};
use netview::view::{render_connections_header, CellStyle};

fn entry(proto: &str, local_port: u16, remote_ip: &str, remote_port: u16, pid: u32) -> ConnectionEntry {
    ConnectionEntry {
        proto: proto.to_string(),
        local_ip: "10.0.0.1".to_string(),
        local_port,
        remote_ip: remote_ip.to_string(),
        remote_port,
        state: String::new(),
        pid,
        process: String::new(),
        creation_time: Instant::now(),
    }
}

fn v4(text: &str) -> IpAddress {
    IpAddress { is_ipv6: false, text: text.to_string() }
}

fn v6(text: &str) -> IpAddress {
    IpAddress { is_ipv6: true, text: text.to_string() }
}

fn tcp(local: IpAddress, lport: u16, remote: IpAddress, rport: u16, state: &str, pid: u32) -> RawSocket {
    RawSocket {
        detail: SocketDetail::Tcp {
            local_addr: local,
            local_port: lport,
            remote_addr: remote,
            remote_port: rport,
            state: state.to_string(),
        },
        associated_pids: vec![pid],
    }
}

fn udp(local: IpAddress, lport: u16, pids: Vec<u32>) -> RawSocket {
    RawSocket { detail: SocketDetail::Udp { local_addr: local, local_port: lport }, associated_pids: pids }
}

fn ports(entries: &Vec<ConnectionEntry>) -> Vec<u16> {
    entries.iter().map(|e| e.local_port).collect()
}

fn remote_ips(entries: &Vec<ConnectionEntry>) -> Vec<String> {
    entries.iter().map(|e| e.remote_ip.clone()).collect()
}

#[test]
fn id_joins_ports_pid_and_protocol() {
    let e = entry("TCP", 22, "10.0.0.2", 5, 10);
    assert_eq!(e.get_id(), "22:5:10:TCP");
    let u = entry("UDP", 53, "", 0, 0);
    assert_eq!(u.get_id(), "53:0:0:UDP");
}

#[test]
fn equality_ignores_process_name_and_capture_time() {
    let a = entry("TCP", 22, "10.0.0.2", 5, 10);
    let mut b = entry("TCP", 22, "10.0.0.2", 5, 10);
    b.process = "sshd".to_string();
    assert!(a == b);
    b.state = "Established".to_string();
    assert!(a != b);
}

#[test]
fn decimal_text_of_numbers() {
    let mut s = String::from("n=");
    push_decimal(&mut s, 0);
    assert_eq!(s, "n=0");
    let mut t = String::new();
    push_decimal(&mut t, 18446744073709551615);
    assert_eq!(t, "18446744073709551615");
}

#[test]
fn text_order_is_by_code_point() {
    assert_eq!(compare_text("a", "b"), Ordering::Less);
    assert_eq!(compare_text("ab", "a"), Ordering::Greater);
    assert_eq!(compare_text("", ""), Ordering::Equal);
    assert_eq!(compare_text("Z", "a"), Ordering::Less);
    assert_eq!(compare_text("é", "z"), Ordering::Greater);
}

#[test]
fn filters_pass_and_block_records() {
    let t4 = tcp(v4("10.0.0.1"), 22, v4("10.0.0.2"), 5, "Established", 1);
    let u6 = udp(v6("::1"), 53, vec![]);
    let both = (IpVersionFilter::Ipv4AndIpv6, ProtocolFilter::TcpAndUdp);
    assert!(should_show(&t4, both.0, both.1));
    assert!(should_show(&u6, both.0, both.1));
    assert!(!should_show(&t4, IpVersionFilter::Ipv6Only, ProtocolFilter::TcpAndUdp));
    assert!(should_show(&u6, IpVersionFilter::Ipv6Only, ProtocolFilter::TcpAndUdp));
    assert!(!should_show(&u6, IpVersionFilter::Ipv4Only, ProtocolFilter::TcpAndUdp));
    assert!(!should_show(&t4, IpVersionFilter::Ipv4AndIpv6, ProtocolFilter::UdpOnly));
    assert!(!should_show(&u6, IpVersionFilter::Ipv4AndIpv6, ProtocolFilter::TcpOnly));
    assert!(should_show(&t4, IpVersionFilter::Ipv4Only, ProtocolFilter::TcpOnly));
}

#[test]
fn filter_gives_the_same_answer_twice() {
    let records = vec![
        tcp(v4("10.0.0.1"), 22, v4("10.0.0.2"), 5, "Established", 1),
        udp(v6("::1"), 53, vec![7]),
    ];
    for ipf in [IpVersionFilter::Ipv4Only, IpVersionFilter::Ipv6Only, IpVersionFilter::Ipv4AndIpv6] {
        for pf in [ProtocolFilter::TcpOnly, ProtocolFilter::UdpOnly, ProtocolFilter::TcpAndUdp] {
            for r in &records {
                assert_eq!(should_show(r, ipf, pf), should_show(r, ipf, pf));
            }
        }
    }
}

#[test]
fn empty_strings_sort_last_ascending_and_first_descending() {
    let mk = |ips: &[&str]| -> Vec<ConnectionEntry> {
        ips.iter().enumerate().map(|(i, ip)| entry("TCP", i as u16, ip, 1, 1)).collect()
    };
    let mut asc = mk(&["", "b", "", "a"]);
    sort_entries(&mut asc, SortColumn::RemoteIP, SortOrder::Asc);
    assert_eq!(remote_ips(&asc), vec!["a", "b", "", ""]);
    let mut desc = mk(&["", "b", "", "a"]);
    sort_entries(&mut desc, SortColumn::RemoteIP, SortOrder::Desc);
    assert_eq!(remote_ips(&desc), vec!["", "", "b", "a"]);
}

#[test]
fn zero_ports_sort_last_ascending_and_first_descending() {
    let mk = || -> Vec<ConnectionEntry> {
        [0u16, 7, 0, 3].iter().enumerate().map(|(i, p)| entry("TCP", i as u16, "x", *p, 1)).collect()
    };
    let mut asc = mk();
    sort_entries(&mut asc, SortColumn::RemotePort, SortOrder::Asc);
    assert_eq!(asc.iter().map(|e| e.remote_port).collect::<Vec<_>>(), vec![3, 7, 0, 0]);
    let mut desc = mk();
    sort_entries(&mut desc, SortColumn::RemotePort, SortOrder::Desc);
    assert_eq!(desc.iter().map(|e| e.remote_port).collect::<Vec<_>>(), vec![0, 0, 7, 3]);
}

#[test]
fn empty_aware_comparators() {
    assert_eq!(string_compare_with_empty("", "", SortOrder::Asc), Ordering::Equal);
    assert_eq!(string_compare_with_empty("", "a", SortOrder::Asc), Ordering::Greater);
    assert_eq!(string_compare_with_empty("a", "", SortOrder::Asc), Ordering::Less);
    assert_eq!(string_compare_with_empty("", "a", SortOrder::Desc), Ordering::Less);
    assert_eq!(string_compare_with_empty("b", "a", SortOrder::Desc), Ordering::Greater);
    assert_eq!(remote_port_compare(0, 0, SortOrder::Desc), Ordering::Equal);
    assert_eq!(remote_port_compare(0, 9, SortOrder::Asc), Ordering::Greater);
    assert_eq!(remote_port_compare(9, 0, SortOrder::Desc), Ordering::Greater);
    assert_eq!(remote_port_compare(2, 9, SortOrder::Asc), Ordering::Less);
}

#[test]
fn descending_is_reversed_ascending_for_every_column() {
    let columns = [
        SortColumn::Proto,
        SortColumn::LocalIP,
        SortColumn::LocalPort,
        SortColumn::RemoteIP,
        SortColumn::RemotePort,
        SortColumn::State,
        SortColumn::PID,
        SortColumn::Process,
    ];
    let base = vec![
        entry("UDP", 53, "", 0, 20),
        entry("TCP", 22, "10.0.0.2", 5, 10),
        entry("TCP", 80, "10.0.0.2", 5, 10),
        entry("TCP", 22, "10.0.0.9", 443, 30),
    ];
    for col in columns {
        let mut asc = base.clone();
        sort_entries(&mut asc, col, SortOrder::Asc);
        let mut desc = base.clone();
        sort_entries(&mut desc, col, SortOrder::Desc);
        let reversed: Vec<String> = asc.iter().rev().map(|e| e.get_id()).collect();
        assert_eq!(desc.iter().map(|e| e.get_id()).collect::<Vec<_>>(), reversed);
    }
    let mut empty: Vec<ConnectionEntry> = vec![];
    sort_entries(&mut empty, SortColumn::PID, SortOrder::Desc);
    assert!(empty.is_empty());
    let mut one = vec![entry("TCP", 1, "", 0, 1)];
    sort_entries(&mut one, SortColumn::State, SortOrder::Desc);
    assert_eq!(ports(&one), vec![1]);
}

#[test]
fn ascending_sort_is_stable() {
    let mut list = vec![
        entry("TCP", 3, "", 0, 5),
        entry("TCP", 1, "", 0, 5),
        entry("UDP", 2, "", 0, 4),
        entry("TCP", 4, "", 0, 5),
    ];
    sort_entries(&mut list, SortColumn::PID, SortOrder::Asc);
    assert_eq!(ports(&list), vec![2, 3, 1, 4]);
}

#[test]
fn neighbours_of_the_first_occurrence() {
    let list = vec![entry("TCP", 1, "", 0, 1), entry("TCP", 2, "", 0, 1), entry("TCP", 3, "", 0, 1)];
    let b = entry("TCP", 2, "", 0, 1);
    assert_eq!(position_of(&list, &b), Some(1));
    assert_eq!(find_previous(&list, &b).unwrap().local_port, 1);
    assert_eq!(find_next(&list, &b).unwrap().local_port, 3);
    assert!(find_previous(&list, &list[0]).is_none());
    assert!(find_next(&list, &list[2]).is_none());
    let missing = entry("TCP", 9, "", 0, 1);
    assert_eq!(position_of(&list, &missing), None);
    assert!(find_next(&list, &missing).is_none());
}

fn three_records() -> Vec<RawSocket> {
    vec![
        tcp(v4("10.0.0.1"), 1, v4("10.0.0.2"), 100, "Established", 1),
        tcp(v4("10.0.0.1"), 2, v4("10.0.0.2"), 200, "Established", 1),
        tcp(v4("10.0.0.1"), 3, v4("10.0.0.2"), 300, "Established", 1),
    ]
}

fn without_b() -> Vec<RawSocket> {
    vec![
        tcp(v4("10.0.0.1"), 1, v4("10.0.0.2"), 100, "Established", 1),
        tcp(v4("10.0.0.1"), 3, v4("10.0.0.2"), 300, "Established", 1),
    ]
}

fn app_with_b_selected() -> App {
    let mut app = App::new();
    app.tick(Some(three_records()), &vec![], Instant::now());
    app.scroll_down_selection();
    assert_eq!(app.selected.as_ref().unwrap().local_port, 1);
    app.scroll_down_selection();
    assert_eq!(app.selected.as_ref().unwrap().local_port, 2);
    app.tick(Some(without_b()), &vec![], Instant::now());
    assert_eq!(ports(&app.entries), vec![1, 3]);
    app
}

#[test]
fn closed_selection_moves_down_to_former_successor() {
    let mut app = app_with_b_selected();
    app.scroll_down_selection();
    assert_eq!(app.selected.as_ref().unwrap().local_port, 3);
}

#[test]
fn closed_selection_moves_up_to_former_predecessor() {
    let mut app = app_with_b_selected();
    app.scroll_up_selection();
    assert_eq!(app.selected.as_ref().unwrap().local_port, 1);
}

#[test]
fn closed_selection_fails_over_after_several_refreshes() {
    let mut app = app_with_b_selected();
    app.tick(Some(without_b()), &vec![], Instant::now());
    app.scroll_down_selection();
    assert_eq!(app.selected.as_ref().unwrap().local_port, 3);
}

#[test]
fn selection_follows_its_connection_across_resorts() {
    let mut app = App::new();
    app.tick(Some(three_records()), &vec![], Instant::now());
    app.scroll_down_selection();
    app.scroll_down_selection();
    app.sort_by_column(SortColumn::LocalPort);
    assert_eq!(app.sort_order, SortOrder::Desc);
    assert_eq!(ports(&app.entries), vec![3, 2, 1]);
    assert_eq!(app.selected_index(), Some(1));
    app.scroll_down_selection();
    assert_eq!(app.selected.as_ref().unwrap().local_port, 1);
    app.scroll_down_selection();
    assert_eq!(app.selected.as_ref().unwrap().local_port, 1);
}

#[test]
fn navigation_on_an_empty_table_does_nothing() {
    let mut app = App::new();
    app.scroll_down_selection();
    app.scroll_up_selection();
    assert!(app.selected.is_none());
    app.tick(Some(three_records()), &vec![], Instant::now());
    app.scroll_up_selection();
    assert_eq!(app.selected.as_ref().unwrap().local_port, 1);
}

#[test]
fn scroll_window_follows_the_selection() {
    assert_eq!(reconcile_scroll(0, Some(10), 5, 20), 7);
    assert_eq!(reconcile_scroll(9, Some(3), 5, 20), 3);
    assert_eq!(reconcile_scroll(2, Some(4), 5, 20), 2);
    assert_eq!(reconcile_scroll(0, Some(11), 5, 12), 7);
    assert_eq!(reconcile_scroll(6, None, 5, 8), 3);
    assert_eq!(reconcile_scroll(6, None, 10, 8), 0);
    assert_eq!(reconcile_scroll(0, Some(0), 0, 3), 2);
    assert_eq!(reconcile_scroll(0, Some(usize::MAX - 1), 0, usize::MAX), usize::MAX);
    for n in 1..12usize {
        for h in 2..8usize {
            for i in 0..n {
                for s in 0..14usize {
                    let r = reconcile_scroll(s, Some(i), h, n);
                    assert!(r <= i && i < r + h);
                    assert!(r <= n.saturating_sub(h));
                }
            }
        }
    }
}

#[test]
fn update_scroll_keeps_selection_visible() {
    let mut app = App::new();
    let records: Vec<RawSocket> = (1..=10u16)
        .map(|p| tcp(v4("10.0.0.1"), p, v4("10.0.0.2"), 1, "Listen", 1))
        .collect();
    app.tick(Some(records), &vec![], Instant::now());
    for _ in 0..8 {
        app.scroll_down_selection();
    }
    app.update_scroll(4);
    assert_eq!(app.selected_index(), Some(7));
    assert_eq!(app.scroll, 5);
    assert_eq!(app.visible_height, 4);
    assert_eq!(app.visible_range(), (5, 9));
}

#[test]
fn dns_cache_keeps_first_outcome() {
    let mut cache = DnsCache::new();
    let ip = v4("10.0.0.2");
    assert_eq!(cache.display_address(&ip, true), None);
    assert_eq!(cache.display_address(&ip, false), Some("10.0.0.2".to_string()));
    assert_eq!(cache.record(&ip, Some("host.example".to_string())), "host.example");
    assert_eq!(cache.display_address(&ip, true), Some("host.example".to_string()));
    assert_eq!(cache.record(&ip, Some("other.example".to_string())), "host.example");
    assert_eq!(cache.get(&"10.0.0.2".to_string()), Some("host.example".to_string()));
}

#[test]
fn failed_lookup_is_sticky() {
    let mut cache = DnsCache::new();
    let ip = v6("::1");
    assert_eq!(cache.record(&ip, None), "::1");
    assert_eq!(cache.display_address(&ip, true), Some("::1".to_string()));
    assert_eq!(cache.record(&ip, Some("localhost".to_string())), "::1");
}

#[test]
fn each_address_is_looked_up_once() {
    let mut app = App::new();
    let records = vec![
        tcp(v4("10.0.0.1"), 22, v4("10.0.0.2"), 5, "Established", 1),
        tcp(v4("10.0.0.1"), 23, v4("10.0.0.3"), 6, "Established", 1),
        udp(v4("10.0.0.2"), 53, vec![]),
    ];
    assert!(app.addresses_to_resolve(&records).is_empty());
    app.toggle_dns_resolution();
    let todo = app.addresses_to_resolve(&records);
    let texts: Vec<String> = todo.iter().map(|a| a.text.clone()).collect();
    assert_eq!(texts, vec!["10.0.0.1", "10.0.0.2", "10.0.0.3"]);
    assert_eq!(app.resolve_dns(&todo[1], Some("peer".to_string())), "peer");
    assert_eq!(app.resolve_dns(&todo[0], None), "10.0.0.1");
    let again: Vec<String> = app.addresses_to_resolve(&records).iter().map(|a| a.text.clone()).collect();
    assert_eq!(again, vec!["10.0.0.3"]);
    app.tick(Some(records), &vec![], Instant::now());
    let e = &app.entries[0];
    assert_eq!(e.local_ip, "10.0.0.1");
    assert_eq!(e.remote_ip, "peer");
    assert_eq!(app.ip_to_string(&v4("10.0.0.2")), "peer");
    app.toggle_dns_resolution();
    assert_eq!(app.ip_to_string(&v4("10.0.0.2")), "10.0.0.2");
}

#[test]
fn end_to_end_refresh_filter_and_sort() {
    let records = || {
        vec![
            tcp(v4("10.0.0.1"), 22, v4("10.0.0.2"), 5, "Established", 10),
            udp(v4("10.0.0.1"), 53, vec![20]),
        ]
    };
    let names = vec![(10u32, "sshd".to_string()), (20u32, "dnsmasq".to_string())];
    let mut app = App::new();
    app.tick(Some(records()), &names, Instant::now());
    assert_eq!(ports(&app.entries), vec![22, 53]);
    assert_eq!(app.entries[0].proto, "TCP");
    assert_eq!(app.entries[0].state, "Established");
    assert_eq!(app.entries[0].process, "sshd");
    assert_eq!(app.entries[1].proto, "UDP");
    assert_eq!(app.entries[1].remote_ip, "");
    assert_eq!(app.entries[1].remote_port, 0);
    assert_eq!(app.entries[1].state, "");
    assert_eq!(app.entries[1].pid, 20);
    assert_eq!(app.entries[1].process, "dnsmasq");
    app.toggle_proto_version();
    assert_eq!(app.protocol_filter, ProtocolFilter::TcpOnly);
    app.tick(Some(records()), &names, Instant::now());
    assert_eq!(ports(&app.entries), vec![22]);
    app.toggle_proto_version();
    app.toggle_proto_version();
    assert_eq!(app.protocol_filter, ProtocolFilter::TcpAndUdp);
    app.tick(Some(records()), &names, Instant::now());
    assert_eq!(ports(&app.entries), vec![22, 53]);
    app.sort_by_column(SortColumn::LocalPort);
    assert_eq!(ports(&app.entries), vec![53, 22]);
}

#[test]
fn unknown_process_and_missing_pids() {
    let mut app = App::new();
    app.tick(Some(vec![udp(v4("0.0.0.0"), 68, vec![]), udp(v4("0.0.0.0"), 67, vec![99, 5])]), &vec![(5, "x".to_string())], Instant::now());
    assert_eq!(app.entries[0].local_port, 67);
    assert_eq!(app.entries[0].pid, 99);
    assert_eq!(app.entries[0].process, "");
    assert_eq!(app.entries[1].pid, 0);
}

#[test]
fn failed_enumeration_gives_an_empty_table() {
    let mut app = App::new();
    app.tick(Some(three_records()), &vec![], Instant::now());
    app.tick(None, &vec![], Instant::now());
    assert!(app.entries.is_empty());
}

#[test]
fn paused_engine_keeps_its_table() {
    let mut app = App::new();
    app.tick(Some(three_records()), &vec![], Instant::now());
    app.pause();
    assert!(app.paused);
    app.tick(None, &vec![], Instant::now());
    assert_eq!(ports(&app.entries), vec![1, 2, 3]);
    app.sort_by_column(SortColumn::RemotePort);
    assert_eq!(app.sort_column, SortColumn::RemotePort);
    assert_eq!(app.sort_order, SortOrder::Asc);
    app.sort_by_column(SortColumn::RemotePort);
    assert_eq!(ports(&app.entries), vec![3, 2, 1]);
    app.pause();
    assert!(!app.paused);
}

#[test]
fn new_column_resets_to_ascending() {
    let mut app = App::new();
    app.sort_by_column(SortColumn::LocalPort);
    assert_eq!(app.sort_order, SortOrder::Desc);
    app.sort_by_column(SortColumn::PID);
    assert_eq!(app.sort_column, SortColumn::PID);
    assert_eq!(app.sort_order, SortOrder::Asc);
}

#[test]
fn toggles_cycle() {
    let mut app = App::new();
    assert!(app.running);
    app.toggle_ip_version();
    assert_eq!(app.ip_version_filter, IpVersionFilter::Ipv4Only);
    app.toggle_ip_version();
    assert_eq!(app.ip_version_filter, IpVersionFilter::Ipv6Only);
    app.toggle_ip_version();
    assert_eq!(app.ip_version_filter, IpVersionFilter::Ipv4AndIpv6);
    app.toggle_process_info();
    assert!(app.show_process_info);
    app.quit();
    assert!(!app.running);
}

#[test]
fn ipv6_filter_hides_ipv4_records() {
    let mut app = App::new();
    app.toggle_ip_version();
    app.toggle_ip_version();
    let records = vec![tcp(v4("10.0.0.1"), 1, v4("10.0.0.2"), 2, "Listen", 1), udp(v6("::"), 5353, vec![])];
    app.tick(Some(records), &vec![], Instant::now());
    assert_eq!(ports(&app.entries), vec![5353]);
    assert_eq!(app.entries[0].local_ip, "::");
}

#[test]
fn keys_map_to_intents() {
    assert_eq!(intent_for_key(KeyPress::Char('q'), false), Some(AppEvent::Quit));
    assert_eq!(intent_for_key(KeyPress::Esc, false), Some(AppEvent::Quit));
    assert_eq!(intent_for_key(KeyPress::Char('c'), true), Some(AppEvent::Quit));
    assert_eq!(intent_for_key(KeyPress::Char('c'), false), None);
    assert_eq!(intent_for_key(KeyPress::Char(' '), false), Some(AppEvent::Pause));
    assert_eq!(intent_for_key(KeyPress::Char('V'), false), Some(AppEvent::ToggleIpVersion));
    assert_eq!(intent_for_key(KeyPress::Char('p'), false), Some(AppEvent::ToggleProtoVersion));
    assert_eq!(intent_for_key(KeyPress::Char('d'), false), Some(AppEvent::ToggleDnsResolution));
    assert_eq!(intent_for_key(KeyPress::Char('h'), false), Some(AppEvent::ShowHelp));
    assert_eq!(intent_for_key(KeyPress::Char('I'), false), Some(AppEvent::ToggleProcessInfo));
    assert_eq!(intent_for_key(KeyPress::Char('1'), false), Some(AppEvent::Sort(SortColumn::Proto)));
    assert_eq!(intent_for_key(KeyPress::Char('5'), false), Some(AppEvent::Sort(SortColumn::RemotePort)));
    assert_eq!(intent_for_key(KeyPress::Char('8'), false), Some(AppEvent::Sort(SortColumn::Process)));
    assert_eq!(intent_for_key(KeyPress::Char('9'), false), None);
    assert_eq!(intent_for_key(KeyPress::Char('0'), false), None);
    assert_eq!(intent_for_key(KeyPress::PageDown, false), Some(AppEvent::ScrollDownPage));
    assert_eq!(intent_for_key(KeyPress::Other, true), None);
    let app = App::new();
    assert_eq!(app.handle_key_events(KeyPress::Up, false), Some(AppEvent::ScrollUpSelection));
    assert_eq!(SortColumn::from_ordinal(7), Some(SortColumn::PID));
    assert_eq!(SortColumn::from_ordinal(9), None);
}

#[test]
fn header_marks_the_ordering_column() {
    let h = render_connections_header(SortColumn::LocalPort, SortOrder::Asc);
    assert_eq!(h, vec!["Prot", "Local IP", "LPort ↑", "Remote IP", "RPort", "State", "PID", "Process"]);
    let d = render_connections_header(SortColumn::Process, SortOrder::Desc);
    assert_eq!(d[7], "Process ↓");
    assert_eq!(d[2], "LPort");
}

#[test]
fn rows_show_texts_and_highlights() {
    let mut app = App::new();
    let records = vec![
        tcp(v4("10.0.0.1"), 22, v4("10.0.0.2"), 5, "Established", 10),
        udp(v4("10.0.0.1"), 53, vec![20]),
    ];
    app.tick(Some(records), &vec![(20, "dnsmasq".to_string())], Instant::now());
    app.scroll_down_selection();
    let rows = app.entries_to_rows();
    assert_eq!(rows.len(), 2);
    let texts: Vec<String> = rows[1].iter().map(|c| c.text.clone()).collect();
    assert_eq!(texts, vec!["UDP", "10.0.0.1", "53", "", "", "", "20", "dnsmasq"]);
    assert_eq!(rows[0][4].text, "5");
    assert!(rows[0].iter().all(|c| c.style == CellStyle::Selected));
    assert_eq!(rows[1][2].style, CellStyle::SortedColumn);
    assert_eq!(rows[1][0].style, CellStyle::Normal);
}

#[test]
fn process_rows_of_a_gone_process() {
    let rows = process_info_to_rows(&None);
    assert_eq!(rows, vec![("Process".to_string(), "not available".to_string())]);
}

#[test]
fn process_rows_format_sizes_times_and_durations() {
    let details = ProcessDetails {
        name: "sshd".to_string(),
        pid: 10,
        user: Some("root".to_string()),
        effective_user: None,
        exe: None,
        cmd: vec!["/usr/sbin/sshd".to_string(), "-D".to_string()],
        cwd: Some("/".to_string()),
        memory: 1024,
        virtual_memory: 512,
        start_time: 0,
        run_time: 3661,
        status: "Sleeping".to_string(),
        environ: vec!["LANG=C".to_string()],
    };
    let rows = process_info_to_rows(&Some(details));
    let expect: Vec<(&str, &str)> = vec![
        ("Name:", "sshd"),
        ("Pid:", "10"),
        ("User:", "root"),
        ("Effective user:", "unknown"),
        ("Path:", "path not available"),
        ("Command line:", "/usr/sbin/sshd -D"),
        ("Working dir:", "/"),
        ("Memory:", "1.0 KiB"),
        ("Virtual memory:", "512 B"),
        ("Started:", "1970-01-01 00:00:00 UTC"),
        ("Run time:", "1h 1m 1s"),
        ("Status:", "Sleeping"),
        ("env", "LANG=C"),
    ];
    let got: Vec<(&str, &str)> = rows.iter().map(|(a, b)| (a.as_str(), b.as_str())).collect();
    assert_eq!(got, expect);
}

#[test]
fn command_line_join() {
    assert_eq!(join_with_spaces(&vec![]), "");
    assert_eq!(join_with_spaces(&vec!["a".to_string()]), "a");
    assert_eq!(join_with_spaces(&vec!["a".to_string(), "".to_string(), "c".to_string()]), "a  c");
}

#[test]
fn default_engine_is_a_fresh_one() {
    let app = App::default();
    assert!(app.running && !app.paused);
    assert!(app.entries.is_empty() && app.selected.is_none());
    assert_eq!(app.sort_column, SortColumn::LocalPort);
    assert_eq!(app.sort_order, SortOrder::Asc);
    assert_eq!(app.ip_version_filter, IpVersionFilter::Ipv4AndIpv6);
    assert_eq!(app.protocol_filter, ProtocolFilter::TcpAndUdp);
    assert!(!app.resolve_address_names && !app.show_process_info);
    assert_eq!(app.visible_range(), (0, 0));
}
