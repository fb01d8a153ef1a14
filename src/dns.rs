//! The cache of resolved address names: filled on first resolution, never
//! replaced or expired.
use vstd::prelude::*;

use crate::filter::IpAddress;

verus! {

/// The text of an optional string.
pub open spec fn opt_text(o: Option<String>) -> Option<Seq<char>> {
    match o {
        Some(s) => Some(s@),
        None => None,
    }
}

/// The cache after recording the outcome of a lookup of `ip`: the first
/// recorded name of an address stays; a failed lookup records the literal
/// address.
pub open spec fn recorded(m: Map<Seq<char>, Seq<char>>, ip: Seq<char>, outcome: Option<Seq<char>>) -> Map<
    Seq<char>,
    Seq<char>,
> {
    if m.contains_key(ip) {
        m
    } else {
        match outcome {
            Some(name) => m.insert(ip, name),
            None => m.insert(ip, ip),
        }
    }
}

/// The text shown for an address: the cached name when resolution is on and
/// the cache holds one, else the literal address.
pub open spec fn shown_address(m: Map<Seq<char>, Seq<char>>, ip: Seq<char>, resolve: bool) -> Seq<
    char,
> {
    if resolve && m.contains_key(ip) {
        m[ip]
    } else {
        ip
    }
}

/// Whether showing an address needs an outside lookup first.
pub open spec fn needs_lookup(m: Map<Seq<char>, Seq<char>>, ip: Seq<char>, resolve: bool) -> bool {
    resolve && !m.contains_key(ip)
}

/// Names of addresses, keyed by the literal address.
pub struct DnsCache {
    names: Vec<(String, String)>,
    map: Ghost<Map<Seq<char>, Seq<char>>>,
}

impl View for DnsCache {
    type V = Map<Seq<char>, Seq<char>>;

    closed spec fn view(&self) -> Map<Seq<char>, Seq<char>> {
        self.map@
    }
}

impl DnsCache {
    /// Each address appears once, and the list and the map agree.
    pub closed spec fn wf(&self) -> bool {
        &&& forall|i: int, j: int|
            0 <= i < j < self.names@.len() ==> self.names@[i].0@ != self.names@[j].0@
        &&& forall|i: int|
            0 <= i < self.names@.len() ==> #[trigger] self.map@.contains_key(self.names@[i].0@)
                && self.map@[self.names@[i].0@] == self.names@[i].1@
        &&& forall|k: Seq<char>|
            #[trigger] self.map@.contains_key(k) ==> exists|i: int|
                0 <= i < self.names@.len() && self.names@[i].0@ == k
    }

    /// An empty cache.
    pub fn new() -> (r: DnsCache)
        ensures
            r.wf(),
            r@ == Map::<Seq<char>, Seq<char>>::empty(),
    {
        DnsCache { names: Vec::new(), map: Ghost(Map::empty()) }
    }

    fn index_of(&self, ip: &String) -> (r: Option<usize>)
        requires
            self.wf(),
        ensures
            match r {
                Some(i) => i < self.names@.len() && self.names@[i as int].0@ == ip@,
                None => !self@.contains_key(ip@),
            },
    {
        let mut i: usize = 0;
        while i < self.names.len()
            invariant
                i <= self.names@.len(),
                forall|j: int| 0 <= j < i ==> self.names@[j].0@ != ip@,
            decreases self.names@.len() - i,
        {
            if self.names[i].0 == *ip {
                return Some(i);
            }
            i = i + 1;
        }
        None
    }

    /// The cached name of an address, if any.
    pub fn get(&self, ip: &String) -> (r: Option<String>)
        requires
            self.wf(),
        ensures
            match r {
                Some(name) => self@.contains_key(ip@) && self@[ip@] == name@,
                None => !self@.contains_key(ip@),
            },
    {
        match self.index_of(ip) {
            Some(i) => {
                assert(self.map@.contains_key(self.names@[i as int].0@));
                Some(self.names[i].1.clone())
            },
            None => None,
        }
    }

    /// Records the outcome of looking up `ip` (`None` for a failed lookup)
    /// and returns the name now cached for it. An address already in the
    /// cache keeps its first name.
    pub fn record(&mut self, ip: &IpAddress, outcome: Option<String>) -> (r: String)
        requires
            old(self).wf(),
        ensures
            final(self).wf(),
            final(self)@ == recorded(old(self)@, ip.text@, opt_text(outcome)),
            r@ == recorded(old(self)@, ip.text@, opt_text(outcome))[ip.text@],
    {
        match self.index_of(&ip.text) {
            Some(i) => {
                assert(self.map@.contains_key(self.names@[i as int].0@));
                self.names[i].1.clone()
            },
            None => {
                let name = match outcome {
                    Some(n) => n,
                    None => ip.text.clone(),
                };
                let r = name.clone();
                let ghost old_names = self.names@;
                let ghost key = ip.text@;
                self.names.push((ip.text.clone(), name));
                self.map = Ghost(self.map@.insert(key, r@));
                assert(forall|i: int| 0 <= i < old_names.len() ==> self.names@[i] == old_names[i]);
                assert(self.names@[old_names.len() as int].0@ == key);
                assert forall|k: Seq<char>| #[trigger] self.map@.contains_key(k) implies exists|
                    i: int,
                | 0 <= i < self.names@.len() && self.names@[i].0@ == k by {
                    if k == key {
                        assert(self.names@[old_names.len() as int].0@ == k);
                    } else {
                        assert(old(self).map@.contains_key(k));
                    }
                }
                r
            },
        }
    }

    /// The text to show for an address, or `None` when resolution is on and
    /// the address has not been looked up yet.
    pub fn display_address(&self, ip: &IpAddress, resolve: bool) -> (r: Option<String>)
        requires
            self.wf(),
        ensures
            match r {
                Some(s) => !needs_lookup(self@, ip.text@, resolve) && s@ == shown_address(
                    self@,
                    ip.text@,
                    resolve,
                ),
                None => needs_lookup(self@, ip.text@, resolve),
            },
    {
        if !resolve {
            return Some(ip.text.clone());
        }
        self.get(&ip.text)
    }
}

/// Once the outcome of a lookup of an address is recorded, showing that
/// address needs no further lookup, and recording any later outcome changes
/// neither the cache nor the name returned: a failed lookup's fallback is
/// as final as a name.
pub proof fn lemma_lookup_at_most_once(
    m: Map<Seq<char>, Seq<char>>,
    ip: Seq<char>,
    first: Option<Seq<char>>,
    second: Option<Seq<char>>,
)
    ensures
        !needs_lookup(recorded(m, ip, first), ip, true),
        recorded(recorded(m, ip, first), ip, second) == recorded(m, ip, first),
        recorded(recorded(m, ip, first), ip, second)[ip] == recorded(m, ip, first)[ip],
        shown_address(recorded(m, ip, first), ip, true) == recorded(m, ip, first)[ip],
{
}

} // verus!
