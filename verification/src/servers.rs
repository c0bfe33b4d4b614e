//! The list of Usenet servers that the web interface manages: adding,
//! updating and removing entries, and the order in which the enabled ones
//! are used.

use vstd::prelude::*;

use crate::bindings::new_v4_uuid;
use crate::store::{uuid_text, uuid_to_string};
use crate::text::str_eq;

verus! {

/// A Usenet server as the API exchanges it.
#[derive(Debug, Clone)]
pub struct ServerEntry {
    pub id: String,
    pub name: String,
    pub host: String,
    pub port: u16,
    pub ssl: bool,
    pub ssl_verify: bool,
    pub username: Option<String>,
    pub password: Option<String>,
    pub connections: u16,
    pub priority: u8,
    pub enabled: bool,
    pub retention: u32,
}

/// The outcome of a connection test.
#[derive(Debug, Clone)]
pub struct TestResult {
    pub success: bool,
    pub message: String,
}

/// Why a change to the server list is refused.
#[derive(Debug, Clone, Copy, PartialEq, Eq, Structural)]
pub enum ServerError {
    /// A new server must name a host.
    EmptyHost,
    /// No server has the given id.
    NotFound,
}

/// The port of a server that names none (NNTP over TLS).
pub fn default_port() -> (r: u16)
    ensures
        r == 563,
{
    563
}

/// The value of a flag that is not given.
pub fn default_true() -> (r: bool)
    ensures
        r,
{
    true
}

/// The number of connections of a server that names none.
pub fn default_connections() -> (r: u16)
    ensures
        r == 8,
{
    8
}

/// Whether `a` and `b` agree on everything but the id.
pub open spec fn same_but_id(a: ServerEntry, b: ServerEntry) -> bool {
    &&& a.name == b.name
    &&& a.host == b.host
    &&& a.port == b.port
    &&& a.ssl == b.ssl
    &&& a.ssl_verify == b.ssl_verify
    &&& a.username == b.username
    &&& a.password == b.password
    &&& a.connections == b.connections
    &&& a.priority == b.priority
    &&& a.enabled == b.enabled
    &&& a.retention == b.retention
}

/// Whether `a` and `b` agree on everything but the id and the name.
pub open spec fn same_but_id_and_name(a: ServerEntry, b: ServerEntry) -> bool {
    &&& a.host == b.host
    &&& a.port == b.port
    &&& a.ssl == b.ssl
    &&& a.ssl_verify == b.ssl_verify
    &&& a.username == b.username
    &&& a.password == b.password
    &&& a.connections == b.connections
    &&& a.priority == b.priority
    &&& a.enabled == b.enabled
    &&& a.retention == b.retention
}

impl ServerEntry {
    /// A copy of the entry.
    pub fn duplicate(&self) -> (r: ServerEntry)
        ensures
            r == *self,
    {
        ServerEntry {
            id: self.id.clone(),
            name: self.name.clone(),
            host: self.host.clone(),
            port: self.port,
            ssl: self.ssl,
            ssl_verify: self.ssl_verify,
            username: match &self.username {
                Some(u) => Some(u.clone()),
                None => None,
            },
            password: match &self.password {
                Some(p) => Some(p.clone()),
                None => None,
            },
            connections: self.connections,
            priority: self.priority,
            enabled: self.enabled,
            retention: self.retention,
        }
    }

    /// The entry with its id replaced.
    pub fn with_id(self, id: String) -> (r: ServerEntry)
        ensures
            r.id == id,
            same_but_id(r, self),
    {
        ServerEntry { id, ..self }
    }
}

/// Completes a server to be added: a server without host is refused; one
/// without id gets the id `fresh` (as UUID text); one without name is named
/// after its host.
pub fn prepare_server(entry: ServerEntry, fresh: u128) -> (r: Result<ServerEntry, ServerError>)
    ensures
        entry.host@.len() == 0 ==> r == Err::<ServerEntry, ServerError>(ServerError::EmptyHost),
        entry.host@.len() > 0 ==> (match r {
            Ok(e) => {
                &&& e.id@ == if entry.id@.len() == 0 {
                    uuid_text(fresh)
                } else {
                    entry.id@
                }
                &&& e.name@ == if entry.name@.len() == 0 {
                    entry.host@
                } else {
                    entry.name@
                }
                &&& same_but_id_and_name(e, entry)
            },
            Err(_) => false,
        }),
{
    if entry.host.as_str().is_empty() {
        return Err(ServerError::EmptyHost);
    }
    let mut e = entry;
    if e.id.as_str().is_empty() {
        e.id = uuid_to_string(fresh);
    }
    if e.name.as_str().is_empty() {
        e.name = e.host.clone();
    }
    Ok(e)
}

/// Adds a server to the list. A server without host is refused and the
/// list is left alone; one without id gets a new random UUID.
pub fn add_server(servers: &mut Vec<ServerEntry>, entry: ServerEntry) -> (r: Result<ServerEntry, ServerError>)
    ensures
        entry.host@.len() == 0 ==> r == Err::<ServerEntry, ServerError>(ServerError::EmptyHost)
            && final(servers)@ == old(servers)@,
        entry.host@.len() > 0 ==> (match r {
            Ok(e) => {
                &&& final(servers)@ == old(servers)@.push(e)
                &&& entry.id@.len() > 0 ==> e.id@ == entry.id@
                &&& entry.id@.len() == 0 ==> exists|x: u128| e.id@ == uuid_text(x)
                &&& e.name@ == if entry.name@.len() == 0 {
                    entry.host@
                } else {
                    entry.name@
                }
                &&& same_but_id_and_name(e, entry)
            },
            Err(_) => false,
        }),
{
    let fresh = if entry.id.as_str().is_empty() {
        new_v4_uuid()
    } else {
        0
    };
    match prepare_server(entry, fresh) {
        Ok(e) => {
            servers.push(e.duplicate());
            Ok(e)
        },
        Err(err) => Err(err),
    }
}

/// Removes every server with the id `id`; reports whether there was one.
pub fn delete_server(servers: &mut Vec<ServerEntry>, id: &str) -> (r: bool)
    ensures
        final(servers)@ == old(servers)@.filter(|s: ServerEntry| s.id@ != id@),
        r == exists|i: int| 0 <= i < old(servers)@.len() && (#[trigger] old(servers)@[i]).id@ == id@,
{
    let ghost keep = |s: ServerEntry| s.id@ != id@;
    let mut out: Vec<ServerEntry> = Vec::new();
    let mut found = false;
    let mut i: usize = 0;
    while i < servers.len()
        invariant
            i <= servers@.len(),
            servers@ == old(servers)@,
            keep == |s: ServerEntry| s.id@ != id@,
            out@ == servers@.subrange(0, i as int).filter(keep),
            found == exists|j: int| 0 <= j < i && (#[trigger] servers@[j]).id@ == id@,
        decreases servers@.len() - i,
    {
        reveal_with_fuel(Seq::<_>::filter, 1);
        assert(servers@.subrange(0, i + 1).drop_last() =~= servers@.subrange(0, i as int));
        if str_eq(servers[i].id.as_str(), id) {
            found = true;
        } else {
            out.push(servers[i].duplicate());
        }
        i += 1;
    }
    assert(servers@.subrange(0, servers@.len() as int) =~= servers@);
    *servers = out;
    found
}

/// Replaces the first server with the id `id` by `entry`, keeping the id;
/// hands back the stored entry, or `None` (and the list unchanged) where
/// no server has the id.
pub fn update_server(servers: &mut Vec<ServerEntry>, id: &str, entry: ServerEntry) -> (r: Option<ServerEntry>)
    ensures
        match r {
            Some(u) => exists|i: int|
                0 <= i < old(servers)@.len() && (#[trigger] old(servers)@[i]).id@ == id@ && (forall|j: int|
                    0 <= j < i ==> (#[trigger] old(servers)@[j]).id@ != id@) && final(servers)@
                    == old(servers)@.update(i, u) && u.id@ == id@ && same_but_id(u, entry),
            None => final(servers)@ == old(servers)@ && forall|j: int|
                0 <= j < old(servers)@.len() ==> (#[trigger] old(servers)@[j]).id@ != id@,
        },
{
    let mut i: usize = 0;
    while i < servers.len()
        invariant
            i <= servers@.len(),
            servers@ == old(servers)@,
            forall|j: int| 0 <= j < i ==> (#[trigger] servers@[j]).id@ != id@,
        decreases servers@.len() - i,
    {
        if str_eq(servers[i].id.as_str(), id) {
            let updated = entry.with_id(id.to_owned());
            servers.set(i, updated.duplicate());
            return Some(updated);
        }
        i += 1;
    }
    None
}

proof fn lemma_filter_keeps_all(s: Seq<ServerEntry>, keep: spec_fn(ServerEntry) -> bool)
    requires
        forall|i: int| 0 <= i < s.len() ==> keep(#[trigger] s[i]),
    ensures
        s.filter(keep) == s,
    decreases s.len(),
{
    reveal_with_fuel(Seq::<_>::filter, 1);
    if s.len() > 0 {
        let t = s.drop_last();
        assert forall|i: int| 0 <= i < t.len() implies keep(#[trigger] t[i]) by {
            assert(t[i] == s[i]);
        }
        lemma_filter_keeps_all(t, keep);
        assert(keep(s.last()));
        assert(t.push(s.last()) =~= s);
    }
}

/// Deleting the id of a server that was just added removes it again: the
/// list is as before, where no server had that id.
pub proof fn lemma_delete_undoes_add(servers: Seq<ServerEntry>, added: ServerEntry)
    requires
        forall|i: int| 0 <= i < servers.len() ==> (#[trigger] servers[i]).id@ != added.id@,
    ensures
        servers.push(added).filter(|s: ServerEntry| s.id@ != added.id@) == servers,
{
    reveal_with_fuel(Seq::<_>::filter, 1);
    let keep = |s: ServerEntry| s.id@ != added.id@;
    let p = servers.push(added);
    assert(p.drop_last() =~= servers);
    lemma_filter_keeps_all(servers, keep);
}

/// The enabled servers of `s` with priority `p`, in order.
pub open spec fn enabled_at(s: Seq<ServerEntry>, p: int) -> Seq<ServerEntry> {
    s.filter(|x: ServerEntry| x.enabled && x.priority == p)
}

/// The enabled servers of `s` with priority below `n`, by priority, the
/// order of `s` kept among equal priorities.
pub open spec fn enabled_below(s: Seq<ServerEntry>, n: nat) -> Seq<ServerEntry>
    decreases n,
{
    if n == 0 {
        Seq::empty()
    } else {
        enabled_below(s, (n - 1) as nat) + enabled_at(s, n - 1)
    }
}

/// The servers that connection pools are built from: the enabled ones,
/// stably sorted by priority.
pub open spec fn pool_order(s: Seq<ServerEntry>) -> Seq<ServerEntry> {
    enabled_below(s, 256)
}

proof fn lemma_enabled_below(s: Seq<ServerEntry>, n: nat)
    ensures
        forall|i: int|
            0 <= i < enabled_below(s, n).len() ==> (#[trigger] enabled_below(s, n)[i]).enabled
                && enabled_below(s, n)[i].priority < n,
        forall|i: int, j: int|
            0 <= i <= j < enabled_below(s, n).len() ==> (#[trigger] enabled_below(s, n)[i]).priority
                <= (#[trigger] enabled_below(s, n)[j]).priority,
        forall|k: int|
            0 <= k < s.len() && (#[trigger] s[k]).enabled && s[k].priority < n ==> enabled_below(
                s,
                n,
            ).contains(s[k]),
    decreases n,
{
    if n > 0 {
        let m = (n - 1) as nat;
        lemma_enabled_below(s, m);
        let pick = |x: ServerEntry| x.enabled && x.priority == m as int;
        let a = enabled_below(s, m);
        let f = s.filter(pick);
        assert(enabled_at(s, m as int) == f);
        let r = enabled_below(s, n);
        assert(r == a + f);
        assert forall|i: int| 0 <= i < f.len() implies (#[trigger] f[i]).enabled && f[i].priority == m by {
            s.lemma_filter_pred(pick, i);
        }
        assert forall|k: int|
            0 <= k < s.len() && (#[trigger] s[k]).enabled && s[k].priority < n implies r.contains(
            s[k],
        ) by {
            if s[k].priority == m {
                s.lemma_filter_contains(pick, k);
                let w = choose|w: int| 0 <= w < f.len() && f[w] == s[k];
                assert(r[a.len() + w] == s[k]);
            } else {
                let w = choose|w: int| 0 <= w < a.len() && a[w] == s[k];
                assert(r[w] == s[k]);
            }
        }
    }
}

/// Connection pools are built from enabled servers only, in order of
/// priority, and from every enabled server.
pub proof fn lemma_pool_order(s: Seq<ServerEntry>)
    ensures
        forall|i: int| 0 <= i < pool_order(s).len() ==> (#[trigger] pool_order(s)[i]).enabled,
        forall|i: int, j: int|
            0 <= i <= j < pool_order(s).len() ==> (#[trigger] pool_order(s)[i]).priority
                <= (#[trigger] pool_order(s)[j]).priority,
        forall|k: int| 0 <= k < s.len() && (#[trigger] s[k]).enabled ==> pool_order(s).contains(s[k]),
{
    lemma_enabled_below(s, 256);
}

/// The servers to build connection pools from, in the order they are
/// tried.
pub fn enabled_by_priority(servers: &[ServerEntry]) -> (r: Vec<ServerEntry>)
    ensures
        r@ == pool_order(servers@),
{
    let mut out: Vec<ServerEntry> = Vec::new();
    let mut p: u16 = 0;
    while p < 256
        invariant
            p <= 256,
            out@ == enabled_below(servers@, p as nat),
        decreases 256 - p,
    {
        let ghost base = out@;
        let ghost pick = |x: ServerEntry| x.enabled && x.priority == p as int;
        let mut i: usize = 0;
        while i < servers.len()
            invariant
                i <= servers@.len(),
                p < 256,
                base == enabled_below(servers@, p as nat),
                pick == |x: ServerEntry| x.enabled && x.priority == p as int,
                out@ == base + servers@.subrange(0, i as int).filter(pick),
            decreases servers@.len() - i,
        {
            reveal_with_fuel(Seq::<_>::filter, 1);
            assert(servers@.subrange(0, i + 1).drop_last() =~= servers@.subrange(0, i as int));
            if servers[i].enabled && servers[i].priority as u16 == p {
                out.push(servers[i].duplicate());
                assert(out@ =~= base + servers@.subrange(0, i + 1).filter(pick));
            }
            i += 1;
        }
        assert(servers@.subrange(0, servers@.len() as int) =~= servers@);
        assert(enabled_at(servers@, p as int) == servers@.filter(pick));
        p += 1;
    }
    out
}

impl TestResult {
    /// The answer to a connection test that succeeded or failed with the
    /// given error text.
    pub fn from_outcome(outcome: Result<(), String>) -> (r: TestResult)
        ensures
            match outcome {
                Ok(()) => r.success && r.message@ == "Connection successful"@,
                Err(e) => !r.success && r.message@ == "Connection failed: "@ + e@,
            },
    {
        match outcome {
            Ok(()) => TestResult { success: true, message: "Connection successful".to_owned() },
            Err(e) => {
                let mut m = "Connection failed: ".to_owned();
                m.append(e.as_str());
                TestResult { success: false, message: m }
            },
        }
    }
}

} // verus!
