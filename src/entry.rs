//! One observed socket of a snapshot, and what makes two of them the same
//! connection.
use std::time::Instant;
use vstd::prelude::*;

use crate::text::{decimal, push_decimal};

verus! {

/// Declares std's `Instant`, so that an entry can carry its moment of
/// capture; nothing in the logic reads it.
#[verifier::external_type_specification]
#[verifier::external_body]
pub struct ExInstant(Instant);

/// One row of the table: a socket at the time of a refresh.
#[derive(Debug)]
pub struct ConnectionEntry {
    pub proto: String,
    pub local_ip: String,
    pub local_port: u16,
    pub remote_ip: String,
    pub remote_port: u16,
    pub state: String,
    pub pid: u32,
    pub process: String,
    pub creation_time: Instant,
}

/// The mathematical value of an entry, without its moment of capture.
pub struct EntryView {
    pub proto: Seq<char>,
    pub local_ip: Seq<char>,
    pub local_port: u16,
    pub remote_ip: Seq<char>,
    pub remote_port: u16,
    pub state: Seq<char>,
    pub pid: u32,
    pub process: Seq<char>,
}

impl View for ConnectionEntry {
    type V = EntryView;

    open spec fn view(&self) -> EntryView {
        EntryView {
            proto: self.proto@,
            local_ip: self.local_ip@,
            local_port: self.local_port,
            remote_ip: self.remote_ip@,
            remote_port: self.remote_port,
            state: self.state@,
            pid: self.pid,
            process: self.process@,
        }
    }
}

/// Two entries stand for the same connection: all fields agree but the
/// process name and the moment of capture.
pub open spec fn same_connection(a: EntryView, b: EntryView) -> bool {
    &&& a.proto == b.proto
    &&& a.local_ip == b.local_ip
    &&& a.local_port == b.local_port
    &&& a.remote_ip == b.remote_ip
    &&& a.remote_port == b.remote_port
    &&& a.state == b.state
    &&& a.pid == b.pid
}

/// The views of a list of entries.
pub open spec fn views(s: Seq<ConnectionEntry>) -> Seq<EntryView> {
    s.map_values(|e: ConnectionEntry| e@)
}

/// The short key `local_port:remote_port:pid:proto`.
pub open spec fn entry_id(e: EntryView) -> Seq<char> {
    decimal(e.local_port as nat) + seq![':'] + decimal(e.remote_port as nat) + seq![':']
        + decimal(e.pid as nat) + seq![':'] + e.proto
}

impl PartialEq for ConnectionEntry {
    fn eq(&self, other: &ConnectionEntry) -> (r: bool)
        ensures
            r == same_connection(self@, other@),
    {
        self.proto == other.proto && self.local_ip == other.local_ip && self.local_port
            == other.local_port && self.remote_ip == other.remote_ip && self.remote_port
            == other.remote_port && self.state == other.state && self.pid == other.pid
    }
}

impl vstd::std_specs::cmp::PartialEqSpecImpl for ConnectionEntry {
    open spec fn obeys_eq_spec() -> bool {
        true
    }

    open spec fn eq_spec(&self, other: &ConnectionEntry) -> bool {
        same_connection(self@, other@)
    }
}

impl Eq for ConnectionEntry {
}

impl ConnectionEntry {
    /// A short key for the entry; two distinct connections may share it.
    pub fn get_id(&self) -> (r: String)
        ensures
            r@ == entry_id(self@),
    {
        let mut r = String::new();
        push_decimal(&mut r, self.local_port as u64);
        r.append(":");
        push_decimal(&mut r, self.remote_port as u64);
        r.append(":");
        push_decimal(&mut r, self.pid as u64);
        r.append(":");
        r.append(self.proto.as_str());
        proof {
            reveal_strlit(":");
        }
        assert(r@ =~= entry_id(self@));
        r
    }

    /// A copy of the entry with the same value and moment of capture.
    pub fn duplicate(&self) -> (r: ConnectionEntry)
        ensures
            r@ == self@,
    {
        ConnectionEntry {
            proto: self.proto.clone(),
            local_ip: self.local_ip.clone(),
            local_port: self.local_port,
            remote_ip: self.remote_ip.clone(),
            remote_port: self.remote_port,
            state: self.state.clone(),
            pid: self.pid,
            process: self.process.clone(),
            creation_time: self.creation_time,
        }
    }
}

impl Clone for ConnectionEntry {
    fn clone(&self) -> (r: ConnectionEntry)
        ensures
            r@ == self@,
    {
        self.duplicate()
    }
}

} // verus!
