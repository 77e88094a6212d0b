//! The host-metadata store of the HMDS server: for each host, what was
//! registered for it (its metadata and the time at which it expires).

use vstd::prelude::*;
use crate::text::str_equals;
use crate::socket::message_text;
use vstd::utf8::{decode_utf8, valid_utf8};

verus! {

/// One registration: a host and what is registered for it (its metadata
/// and when the registration expires).
pub struct HmdsEntry<R> {
    pub host: String,
    pub registration: R,
}

pub open spec fn registration_of<R>(e: HmdsEntry<R>) -> R {
    e.registration
}

pub open spec fn hosts_distinct<R>(s: Seq<HmdsEntry<R>>) -> bool {
    forall|i: int, j: int|
        0 <= i < s.len() && 0 <= j < s.len() && i != j ==> #[trigger] s[i].host@ != #[trigger] s[j].host@
}

pub open spec fn lists_host<R>(s: Seq<HmdsEntry<R>>, host: Seq<char>) -> bool {
    exists|i: int| 0 <= i < s.len() && #[trigger] s[i].host@ == host
}

pub open spec fn host_index<R>(s: Seq<HmdsEntry<R>>, host: Seq<char>) -> int {
    choose|i: int| 0 <= i < s.len() && #[trigger] s[i].host@ == host
}

/// The map from hosts to registrations that a list of entries denotes.
pub open spec fn entries_map<R>(s: Seq<HmdsEntry<R>>) -> Map<Seq<char>, R> {
    Map::new(|h: Seq<char>| lists_host(s, h), |h: Seq<char>| registration_of(s[host_index(s, h)]))
}

/// In a list without repeated hosts, the map gives each listed host the
/// registration of its entry.
pub proof fn lemma_entries_map_at<R>(s: Seq<HmdsEntry<R>>, i: int)
    requires
        hosts_distinct(s),
        0 <= i < s.len(),
    ensures
        entries_map(s).contains_key(s[i].host@),
        entries_map(s)[s[i].host@] == registration_of(s[i]),
{
    let h = s[i].host@;
    assert(lists_host(s, h));
    let j = host_index(s, h);
    assert(s[j].host@ == h);
}

proof fn lemma_entries_map_push<R>(s: Seq<HmdsEntry<R>>, e: HmdsEntry<R>)
    requires
        hosts_distinct(s),
        !lists_host(s, e.host@),
    ensures
        hosts_distinct(s.push(e)),
        entries_map(s.push(e)) =~= entries_map(s).insert(e.host@, registration_of(e)),
{
    let t = s.push(e);
    assert forall|i: int, j: int|
        0 <= i < t.len() && 0 <= j < t.len() && i != j implies #[trigger] t[i].host@
        != #[trigger] t[j].host@ by {
        if i < s.len() && j < s.len() {
            assert(t[i] == s[i] && t[j] == s[j]);
        } else if i < s.len() {
            assert(t[i] == s[i]);
        } else {
            assert(t[j] == s[j]);
        }
    }
    let m = entries_map(s).insert(e.host@, registration_of(e));
    assert forall|h: Seq<char>| #[trigger] entries_map(t).contains_key(h) <==> m.contains_key(h) by {
        if lists_host(t, h) && h != e.host@ {
            let k = choose|k: int| 0 <= k < t.len() && #[trigger] t[k].host@ == h;
            assert(k < s.len());
            assert(s[k].host@ == h);
        }
        if m.contains_key(h) && h != e.host@ {
            let k = choose|k: int| 0 <= k < s.len() && #[trigger] s[k].host@ == h;
            assert(t[k].host@ == h);
        }
        if h == e.host@ {
            assert(t[s.len() as int].host@ == h);
        }
    }
    assert forall|h: Seq<char>| #[trigger] entries_map(t).contains_key(h) implies entries_map(t)[h]
        == m[h] by {
        let k = choose|k: int| 0 <= k < t.len() && #[trigger] t[k].host@ == h;
        lemma_entries_map_at(t, k);
        if k < s.len() {
            assert(t[k] == s[k]);
            lemma_entries_map_at(s, k);
        }
    }
}

proof fn lemma_entries_map_remove<R>(s: Seq<HmdsEntry<R>>, i: int)
    requires
        hosts_distinct(s),
        0 <= i < s.len(),
    ensures
        hosts_distinct(s.remove(i)),
        !lists_host(s.remove(i), s[i].host@),
        entries_map(s.remove(i)) =~= entries_map(s).remove(s[i].host@),
{
    let t = s.remove(i);
    let gone = s[i].host@;
    assert forall|a: int| 0 <= a < t.len() implies #[trigger] t[a] == s[if a < i {
        a
    } else {
        a + 1
    }] by {}
    assert forall|a: int, b: int|
        0 <= a < t.len() && 0 <= b < t.len() && a != b implies #[trigger] t[a].host@
        != #[trigger] t[b].host@ by {
        let a2 = if a < i {
            a
        } else {
            a + 1
        };
        let b2 = if b < i {
            b
        } else {
            b + 1
        };
        assert(t[a] == s[a2] && t[b] == s[b2]);
    }
    if lists_host(t, gone) {
        let k = choose|k: int| 0 <= k < t.len() && #[trigger] t[k].host@ == gone;
        let k2 = if k < i {
            k
        } else {
            k + 1
        };
        assert(t[k] == s[k2]);
    }
    let m = entries_map(s).remove(gone);
    assert forall|h: Seq<char>| #[trigger] entries_map(t).contains_key(h) <==> m.contains_key(h) by {
        if lists_host(t, h) {
            let k = choose|k: int| 0 <= k < t.len() && #[trigger] t[k].host@ == h;
            let k2 = if k < i {
                k
            } else {
                k + 1
            };
            assert(t[k] == s[k2]);
            assert(s[k2].host@ == h);
        }
        if m.contains_key(h) {
            let k = choose|k: int| 0 <= k < s.len() && #[trigger] s[k].host@ == h;
            assert(k != i);
            let k2 = if k < i {
                k
            } else {
                k - 1
            };
            assert(t[k2] == s[k]);
            assert(t[k2].host@ == h);
        }
    }
    assert forall|h: Seq<char>| #[trigger] entries_map(t).contains_key(h) implies entries_map(t)[h]
        == m[h] by {
        let k = choose|k: int| 0 <= k < t.len() && #[trigger] t[k].host@ == h;
        let k2 = if k < i {
            k
        } else {
            k + 1
        };
        assert(t[k] == s[k2]);
        lemma_entries_map_at(t, k);
        lemma_entries_map_at(s, k2);
    }
}

/// The registrations of the HMDS server, one per host. They are kept in a
/// list without repeated hosts, whose contents a map view states exactly
/// (std's `HashMap` with `String` keys comes with no usable specification).
pub struct HmdsStore<R> {
    entries: Vec<HmdsEntry<R>>,
}

impl<R> View for HmdsStore<R> {
    type V = Map<Seq<char>, R>;

    closed spec fn view(&self) -> Map<Seq<char>, R> {
        entries_map(self.entries@)
    }
}

impl<R> HmdsStore<R> {
    #[verifier::type_invariant]
    spec fn well_formed(self) -> bool {
        hosts_distinct(self.entries@)
    }

    /// The entries in the order in which `listing` hands them out.
    pub closed spec fn listed(self) -> Seq<HmdsEntry<R>> {
        self.entries@
    }

    /// An empty store.
    pub fn new() -> (s: Self)
        ensures
            s@ == Map::<Seq<char>, R>::empty(),
    {
        let s = HmdsStore { entries: Vec::new() };
        assert(s@ =~= Map::<Seq<char>, R>::empty());
        s
    }

    fn position(&self, host: &str) -> (r: Option<usize>)
        ensures
            match r {
                Some(i) => i < self.entries@.len() && self.entries@[i as int].host@ == host@,
                None => !lists_host(self.entries@, host@),
            },
    {
        let n = self.entries.len();
        let mut i: usize = 0;
        while i < n
            invariant
                n == self.entries@.len(),
                i <= n,
                forall|j: int| 0 <= j < i ==> #[trigger] self.entries@[j].host@ != host@,
            decreases n - i,
        {
            if str_equals(self.entries[i].host.as_str(), host) {
                return Some(i);
            }
            i = i + 1;
        }
        None
    }

    /// The registration of `host`, if it has one.
    pub fn get(&self, host: &str) -> (r: Option<&HmdsEntry<R>>)
        ensures
            match r {
                Some(e) => self@.contains_key(host@) && e.host@ == host@ && self@[host@]
                    == registration_of(*e),
                None => !self@.contains_key(host@),
            },
    {
        proof {
            use_type_invariant(self);
        }
        match self.position(host) {
            Some(i) => {
                proof {
                    lemma_entries_map_at(self.entries@, i as int);
                }
                Some(&self.entries[i])
            },
            None => None,
        }
    }

    /// Registers `registration` for `host`, replacing what `host` had before.
    pub fn insert(&mut self, host: String, registration: R)
        ensures
            final(self)@ == old(self)@.insert(host@, registration),
    {
        proof {
            use_type_invariant(&*self);
        }
        let ghost before = self.entries@;
        match self.position(host.as_str()) {
            Some(i) => {
                proof {
                    lemma_entries_map_remove(before, i as int);
                }
                let mut entries = Vec::new();
                std::mem::swap(&mut entries, &mut self.entries);
                entries.remove(i);
                let e = HmdsEntry { host, registration };
                proof {
                    lemma_entries_map_push(entries@, e);
                }
                entries.push(e);
                self.entries = entries;
                assert(self@ =~= entries_map(before).insert(host@, registration));
            },
            None => {
                let e = HmdsEntry { host, registration };
                proof {
                    lemma_entries_map_push(before, e);
                }
                let mut entries = Vec::new();
                std::mem::swap(&mut entries, &mut self.entries);
                entries.push(e);
                self.entries = entries;
            },
        }
    }

    /// Removes the registration of `host`, if it has one.
    pub fn remove(&mut self, host: &str)
        ensures
            final(self)@ == old(self)@.remove(host@),
    {
        proof {
            use_type_invariant(&*self);
        }
        let ghost before = self.entries@;
        match self.position(host) {
            Some(i) => {
                proof {
                    lemma_entries_map_remove(before, i as int);
                }
                let mut entries = Vec::new();
                std::mem::swap(&mut entries, &mut self.entries);
                entries.remove(i);
                self.entries = entries;
            },
            None => {
                assert(entries_map(before).remove(host@) =~= entries_map(before));
            },
        }
    }

    /// The answer to a query received on the domain socket: `None` when the
    /// query is not UTF-8 text, else the registration of the host it names,
    /// if that host has one.
    pub fn answer_socket_query(&self, payload: Vec<u8>) -> (r: Option<Option<&HmdsEntry<R>>>)
        ensures
            r is Some <==> valid_utf8(payload@),
            r matches Some(found) ==> match found {
                Some(e) => self@.contains_key(decode_utf8(payload@)) && e.host@ == decode_utf8(
                    payload@,
                ) && self@[decode_utf8(payload@)] == registration_of(*e),
                None => !self@.contains_key(decode_utf8(payload@)),
            },
    {
        match message_text(payload) {
            Some(query) => Some(self.get(query.as_str())),
            None => None,
        }
    }

    /// All registrations, each once, in no particular order: the listing
    /// names each registered host exactly once, with its registration, and
    /// names no other host.
    pub fn listing(&self) -> (r: &[HmdsEntry<R>])
        ensures
            r@ == self.listed(),
            hosts_distinct(r@),
            forall|i: int|
                0 <= i < r@.len() ==> self@.contains_key(#[trigger] r@[i].host@) && self@[r@[i].host@]
                    == registration_of(r@[i]),
            forall|h: Seq<char>| #[trigger]
                self@.contains_key(h) ==> exists|i: int| 0 <= i < r@.len() && #[trigger] r@[i].host@ == h,
    {
        proof {
            use_type_invariant(self);
            assert forall|i: int| 0 <= i < self.entries@.len() implies self@.contains_key(
                #[trigger] self.entries@[i].host@,
            ) && self@[self.entries@[i].host@] == registration_of(self.entries@[i]) by {
                lemma_entries_map_at(self.entries@, i);
            }
        }
        self.entries.as_slice()
    }
}

/// A query made after a registration of `host` finds that registration for
/// `host`, and finds for every other host what it found before.
pub proof fn lemma_query_after_registration<R>(
    before: Map<Seq<char>, R>,
    host: Seq<char>,
    registration: R,
    probe: Seq<char>,
)
    ensures
        before.insert(host, registration).contains_key(probe) <==> (probe == host
            || before.contains_key(probe)),
        probe == host ==> before.insert(host, registration)[probe] == registration,
        probe != host && before.contains_key(probe) ==> before.insert(host, registration)[probe]
            == before[probe],
{
}

/// A query made after the deletion of `host` finds nothing for `host`, and
/// finds for every other host what it found before; deleting a host that has
/// no registration changes nothing.
pub proof fn lemma_query_after_deletion<R>(
    before: Map<Seq<char>, R>,
    host: Seq<char>,
    probe: Seq<char>,
)
    ensures
        !before.remove(host).contains_key(host),
        probe != host ==> (before.remove(host).contains_key(probe) <==> before.contains_key(
            probe,
        )),
        probe != host && before.contains_key(probe) ==> before.remove(host)[probe] == before[probe],
        !before.contains_key(host) ==> before.remove(host) == before,
{
    if !before.contains_key(host) {
        assert(before.remove(host) =~= before);
    }
}

/// The settings of the HMDS server's HTTP interface.
#[derive(Debug)]
pub struct HmdsWebConfiguration {
    pub ip: String,
    pub port: u16,
    pub timeout: chrono::TimeDelta,
}

impl HmdsWebConfiguration {
    /// Settings that listen on `ip`:`port` and keep registrations for `timeout`.
    pub fn new(ip: String, port: u16, timeout: chrono::TimeDelta) -> (c: Self)
        ensures
            c.ip@ == ip@,
            c.port == port,
            c.timeout == timeout,
    {
        HmdsWebConfiguration { ip, port, timeout }
    }
}

/// The settings of the HMDS server's UNIX domain socket: where it lies, and
/// the user and group that are to own it.
#[derive(Debug, Clone)]
pub struct HmdsDomainConfiguration {
    pub server_path: String,
    pub user: Option<String>,
    pub group: Option<String>,
}

impl HmdsDomainConfiguration {
    pub fn new(server_path: String, user: Option<String>, group: Option<String>) -> (c: Self)
        ensures
            c.server_path@ == server_path@,
            c.user == user,
            c.group == group,
    {
        HmdsDomainConfiguration { server_path, user, group }
    }
}

} // verus!
