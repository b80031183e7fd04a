//! TCP connections read from the kernel's process and socket tables: each
//! row of the TCP table is joined with the process that holds its socket.

use std::collections::HashMap;
use std::collections::hash_map::RandomState;
use vstd::prelude::*;
use vstd::string::StrSliceExecFns;
use vstd::std_specs::hash::{obeys_key_model, builds_valid_hashers};

verus! {

broadcast use vstd::std_specs::hash::group_hash_axioms;

/// One row of the kernel's TCP table; addresses are written `ip:port`.
pub struct TcpEntry {
    pub local_address: String,
    pub remote_address: String,
    /// The TCP state, as the table's reader spells it.
    pub state: String,
    pub inode: u64,
}

/// A process that holds the socket with the given inode open.
pub struct SocketOwner {
    pub inode: u64,
    pub pid: i32,
    pub comm: String,
}

/// A TCP connection with the process that holds it.
pub struct Connection {
    pub local_address: String,
    pub local_address_port: String,
    pub remote_address: String,
    pub remote_address_port: String,
    pub state: String,
    pub inode: u64,
    pub pid: i32,
    pub comm: String,
}

/// A connection as text.
pub struct ConnectionView {
    pub local_address: Seq<char>,
    pub local_address_port: Seq<char>,
    pub remote_address: Seq<char>,
    pub remote_address_port: Seq<char>,
    pub state: Seq<char>,
    pub inode: u64,
    pub pid: i32,
    pub comm: Seq<char>,
}

impl View for Connection {
    type V = ConnectionView;

    open spec fn view(&self) -> ConnectionView {
        ConnectionView {
            local_address: self.local_address@,
            local_address_port: self.local_address_port@,
            remote_address: self.remote_address@,
            remote_address_port: self.remote_address_port@,
            state: self.state@,
            inode: self.inode,
            pid: self.pid,
            comm: self.comm@,
        }
    }
}

/// The position of the first ':' at or after `from`, or the length of `s`.
pub open spec fn colon_from(s: Seq<char>, from: int) -> int
    decreases s.len() - from,
{
    if from < 0 || from >= s.len() {
        s.len() as int
    } else if s[from] == ':' {
        from
    } else {
        colon_from(s, from + 1)
    }
}

proof fn lemma_colon_from_bounds(s: Seq<char>, from: int)
    requires
        0 <= from <= s.len(),
    ensures
        from <= colon_from(s, from) <= s.len(),
    decreases s.len() - from,
{
    if from < s.len() && s[from] != ':' {
        lemma_colon_from_bounds(s, from + 1);
    }
}

/// The first two `:`-separated fields of `s`.
pub open spec fn spec_split_address(s: Seq<char>) -> (Seq<char>, Seq<char>) {
    let first = colon_from(s, 0);
    let second = colon_from(s, first + 1);
    (s.subrange(0, first), s.subrange(first + 1, second))
}

fn find_colon(s: &str, from: usize) -> (r: usize)
    requires
        from <= s@.len(),
    ensures
        r == colon_from(s@, from as int),
        s@.len() <= usize::MAX,
{
    let n = s.unicode_len();
    let mut i = from;
    while i < n
        invariant
            n == s@.len(),
            from <= i <= n,
            colon_from(s@, i as int) == colon_from(s@, from as int),
        decreases n - i,
    {
        if s.get_char(i) == ':' {
            return i;
        }
        i += 1;
    }
    i
}

/// Splits `ip:port` text at its colons and returns the first two fields.
pub fn split_address(text: &String) -> (r: (String, String))
    requires
        colon_from(text@, 0) < text@.len(),
    ensures
        (r.0@, r.1@) == spec_split_address(text@),
{
    let s = text.as_str();
    let first = find_colon(s, 0);
    let second = find_colon(s, first + 1);
    proof {
        lemma_colon_from_bounds(s@, first + 1);
    }
    (s.substring_char(0, first).to_owned(), s.substring_char(first + 1, second).to_owned())
}

/// The process recorded for `inode` once every owner was recorded in
/// turn, a later record replacing an earlier one: the last owner listed.
pub open spec fn owner_of(owners: Seq<SocketOwner>, inode: u64) -> Option<(i32, Seq<char>)>
    decreases owners.len(),
{
    if owners.len() == 0 {
        None
    } else if owners.last().inode == inode {
        Some((owners.last().pid, owners.last().comm@))
    } else {
        owner_of(owners.drop_last(), inode)
    }
}

/// Every row whose socket some process holds, joined with that process,
/// in table order.
pub open spec fn spec_get_tcp(owners: Seq<SocketOwner>, entries: Seq<TcpEntry>) -> Seq<
    ConnectionView,
>
    decreases entries.len(),
{
    if entries.len() == 0 {
        Seq::empty()
    } else {
        let before = spec_get_tcp(owners, entries.drop_last());
        let e = entries.last();
        match owner_of(owners, e.inode) {
            Some((pid, comm)) => before.push(
                ConnectionView {
                    local_address: spec_split_address(e.local_address@).0,
                    local_address_port: spec_split_address(e.local_address@).1,
                    remote_address: spec_split_address(e.remote_address@).0,
                    remote_address_port: spec_split_address(e.remote_address@).1,
                    state: e.state@,
                    inode: e.inode,
                    pid,
                    comm,
                },
            ),
            None => before,
        }
    }
}

/// Every joined connection carries the process recorded last for its
/// socket, and no row yields more than one connection.
pub proof fn law_joined_rows_carry_their_owner(owners: Seq<SocketOwner>, entries: Seq<TcpEntry>)
    ensures
        forall|i: int|
            0 <= i < spec_get_tcp(owners, entries).len() ==> {
                let c = #[trigger] spec_get_tcp(owners, entries)[i];
                owner_of(owners, c.inode) == Some((c.pid, c.comm))
            },
        spec_get_tcp(owners, entries).len() <= entries.len(),
    decreases entries.len(),
{
    if entries.len() > 0 {
        law_joined_rows_carry_their_owner(owners, entries.drop_last());
        let before = spec_get_tcp(owners, entries.drop_last());
        assert forall|i: int| 0 <= i < spec_get_tcp(owners, entries).len() implies {
            let c = #[trigger] spec_get_tcp(owners, entries)[i];
            owner_of(owners, c.inode) == Some((c.pid, c.comm))
        } by {
            if i < before.len() {
                assert(spec_get_tcp(owners, entries)[i] == before[i]);
            }
        }
    }
}

proof fn lemma_colon_from_first(s: Seq<char>, from: int, p: int)
    requires
        0 <= from <= p <= s.len(),
        forall|j: int| from <= j < p ==> s[j] != ':',
        p == s.len() || s[p] == ':',
    ensures
        colon_from(s, from) == p,
    decreases p - from,
{
    if from < p {
        lemma_colon_from_first(s, from + 1, p);
    }
}

/// Splitting `ip:port` text gives back the text before the colon and the
/// text after it, when neither holds a colon.
pub proof fn law_split_address_of_ip_and_port(ip: Seq<char>, port: Seq<char>)
    requires
        !ip.contains(':'),
        !port.contains(':'),
    ensures
        spec_split_address(ip + seq![':'] + port) == (ip, port),
{
    let t = ip + seq![':'] + port;
    assert forall|j: int| 0 <= j < ip.len() implies t[j] != ':' by {
        assert(t[j] == ip[j]);
        if ip[j] == ':' {
            assert(ip.contains(':'));
        }
    }
    lemma_colon_from_first(t, 0, ip.len() as int);
    assert forall|j: int| ip.len() + 1 <= j < t.len() implies t[j] != ':' by {
        assert(t[j] == port[j - ip.len() - 1]);
        if port[j - ip.len() - 1] == ':' {
            assert(port.contains(':'));
        }
    }
    lemma_colon_from_first(t, (ip.len() + 1) as int, t.len() as int);
    assert(t.subrange(0, ip.len() as int) =~= ip);
    assert(t.subrange((ip.len() + 1) as int, t.len() as int) =~= port);
}

/// Whether some process holds the socket of a row.
pub open spec fn owned(owners: Seq<SocketOwner>) -> spec_fn(TcpEntry) -> bool {
    |e: TcpEntry| owner_of(owners, e.inode) is Some
}

/// Every row whose socket some process holds yields exactly one connection,
/// and no other row yields one, in table order: the `k`-th connection is
/// made of the `k`-th owned row, its address text split at the colons, and
/// of the process recorded last for its socket.
pub proof fn law_each_owned_row_yields_its_connection(
    owners: Seq<SocketOwner>,
    entries: Seq<TcpEntry>,
)
    ensures
        spec_get_tcp(owners, entries).len() == entries.filter(owned(owners)).len(),
        forall|k: int|
            0 <= k < spec_get_tcp(owners, entries).len() ==> {
                let c = #[trigger] spec_get_tcp(owners, entries)[k];
                let e = entries.filter(owned(owners))[k];
                &&& c.inode == e.inode
                &&& c.state == e.state@
                &&& (c.local_address, c.local_address_port) == spec_split_address(
                    e.local_address@,
                )
                &&& (c.remote_address, c.remote_address_port) == spec_split_address(
                    e.remote_address@,
                )
                &&& owner_of(owners, e.inode) == Some((c.pid, c.comm))
            },
    decreases entries.len(),
{
    reveal_with_fuel(Seq::<TcpEntry>::filter, 1);
    if entries.len() > 0 {
        law_each_owned_row_yields_its_connection(owners, entries.drop_last());
        let f = entries.drop_last().filter(owned(owners));
        let before = spec_get_tcp(owners, entries.drop_last());
        assert(entries.filter(owned(owners)) == if owned(owners)(entries.last()) {
            f.push(entries.last())
        } else {
            f
        });
        assert forall|k: int| 0 <= k < spec_get_tcp(owners, entries).len() implies {
            let c = #[trigger] spec_get_tcp(owners, entries)[k];
            let e = entries.filter(owned(owners))[k];
            &&& c.inode == e.inode
            &&& c.state == e.state@
            &&& (c.local_address, c.local_address_port) == spec_split_address(e.local_address@)
            &&& (c.remote_address, c.remote_address_port) == spec_split_address(
                e.remote_address@,
            )
            &&& owner_of(owners, e.inode) == Some((c.pid, c.comm))
        } by {
            if k < before.len() {
                assert(spec_get_tcp(owners, entries)[k] == before[k]);
                assert(entries.filter(owned(owners))[k] == f[k]);
            }
        }
    } else {
        assert(entries.filter(owned(owners)) =~= entries);
    }
}

/// Whether every address in the table has the form `ip:port`.
pub open spec fn addresses_have_ports(entries: Seq<TcpEntry>) -> bool {
    forall|i: int|
        0 <= i < entries.len() ==> colon_from(#[trigger] entries[i].local_address@, 0)
            < entries[i].local_address@.len() && colon_from(entries[i].remote_address@, 0)
            < entries[i].remote_address@.len()
}

/// Joins the TCP table with the owners of its sockets.
pub fn get_tcp(owners: &Vec<SocketOwner>, entries: &Vec<TcpEntry>) -> (r: Vec<Connection>)
    requires
        addresses_have_ports(entries@),
    ensures
        r@.map_values(|c: Connection| c@) == spec_get_tcp(owners@, entries@),
{
    proof {
        assert(obeys_key_model::<u64>());
        assert(builds_valid_hashers::<RandomState>());
    }
    let mut map: HashMap<u64, (i32, String)> = HashMap::new();
    let mut k: usize = 0;
    while k < owners.len()
        invariant
            obeys_key_model::<u64>(),
            builds_valid_hashers::<RandomState>(),
            k <= owners.len(),
            forall|inode: u64|
                {
                    &&& #[trigger] map@.contains_key(inode) == owner_of(
                        owners@.take(k as int),
                        inode,
                    ) is Some
                    &&& map@.contains_key(inode) ==> (map@[inode].0, map@[inode].1@) == owner_of(
                        owners@.take(k as int),
                        inode,
                    )->0
                },
        decreases owners.len() - k,
    {
        let owner = &owners[k];
        map.insert(owner.inode, (owner.pid, owner.comm.clone()));
        proof {
            assert(owners@.take(k + 1).drop_last() =~= owners@.take(k as int));
            assert(owners@.take(k + 1).last() == owners@[k as int]);
        }
        k += 1;
    }
    proof {
        assert(owners@.take(owners.len() as int) =~= owners@);
    }
    let mut connections: Vec<Connection> = Vec::new();
    let mut i: usize = 0;
    while i < entries.len()
        invariant
            obeys_key_model::<u64>(),
            builds_valid_hashers::<RandomState>(),
            i <= entries.len(),
            addresses_have_ports(entries@),
            forall|inode: u64|
                {
                    &&& #[trigger] map@.contains_key(inode) == owner_of(owners@, inode) is Some
                    &&& map@.contains_key(inode) ==> (map@[inode].0, map@[inode].1@) == owner_of(
                        owners@,
                        inode,
                    )->0
                },
            connections@.map_values(|c: Connection| c@) == spec_get_tcp(
                owners@,
                entries@.take(i as int),
            ),
        decreases entries.len() - i,
    {
        let entry = &entries[i];
        let ghost prev = connections@;
        proof {
            assert(entries@.take(i + 1).drop_last() =~= entries@.take(i as int));
            assert(entries@.take(i + 1).last() == entries@[i as int]);
        }
        if let Some(stat) = map.get(&entry.inode) {
            let (local_address, local_address_port) = split_address(&entry.local_address);
            let (remote_address, remote_address_port) = split_address(&entry.remote_address);
            let connection = Connection {
                local_address,
                local_address_port,
                remote_address,
                remote_address_port,
                state: entry.state.clone(),
                inode: entry.inode,
                pid: stat.0,
                comm: stat.1.clone(),
            };
            connections.push(connection);
            proof {
                assert(connections@ =~= prev.push(connection));
                assert(connections@.map_values(|c: Connection| c@) =~= prev.map_values(
                    |c: Connection| c@,
                ).push(connection@));
            }
        }
        i += 1;
    }
    proof {
        assert(entries@.take(entries.len() as int) =~= entries@);
    }
    connections
}

} // verus!
