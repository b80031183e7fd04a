//! TCP connections of this machine, with the processes that own them.

use vstd::prelude::*;
use crate::net::geolocate::GeolocationClient;
use crate::net::ip::{IpAddress, AddressError, spec_to_ipv4, spec_is_global, to_ipv4, is_global};

pub mod dispatch;
pub mod geolocate;
pub mod ip;
pub mod ip_api;
pub mod net_proc;

verus! {

/// What the socket table reports about one TCP socket.
#[derive(Debug)]
pub struct TcpSocket {
    pub local_addr: IpAddress,
    pub local_port: u16,
    pub remote_addr: IpAddress,
    pub remote_port: u16,
    /// The TCP state, as the socket table spells it.
    pub state: String,
    pub inode: u32,
    /// The processes that hold the socket open.
    pub associated_pids: Vec<u32>,
}

/// A TCP connection to a globally routable IPv4 address.
#[derive(Debug)]
pub struct Connection {
    pub local_address: u32,
    pub local_address_port: u16,
    pub remote_address: u32,
    pub remote_address_port: u16,
    pub state: String,
    pub inode: u32,
    pub processes: Vec<Process>,
}

/// How a connection is shown on screen.
pub struct ConnectionDisplay {}

/// A process that holds a socket open.
#[derive(Debug)]
pub struct Process {
    pub pid: u32,
    /// The name of the process, when the process table still lists it.
    pub name: Option<String>,
}

/// Why a socket is not listed as a connection.
#[derive(Clone, Copy, Debug, PartialEq, Eq, Structural)]
pub enum ConnectionError {
    /// One end is an IPv6 address that does not map an IPv4 address.
    Address(AddressError),
    /// The remote end is not globally routable.
    NonGlobal,
}

/// The connection that a socket and the processes holding it make, or why there is none.
pub open spec fn spec_connection(socket: TcpSocket, processes: Vec<Process>) -> Result<
    Connection,
    ConnectionError,
> {
    match spec_to_ipv4(socket.remote_addr) {
        Err(e) => Err(ConnectionError::Address(e)),
        Ok(remote) => if !spec_is_global(remote) {
            Err(ConnectionError::NonGlobal)
        } else {
            match spec_to_ipv4(socket.local_addr) {
                Err(e) => Err(ConnectionError::Address(e)),
                Ok(local) => Ok(
                    Connection {
                        local_address: local,
                        local_address_port: socket.local_port,
                        remote_address: remote,
                        remote_address_port: socket.remote_port,
                        state: socket.state,
                        inode: socket.inode,
                        processes,
                    },
                ),
            }
        },
    }
}

impl Connection {
    /// The connection of a socket whose remote end is a global IPv4
    /// address (IPv4-mapped IPv6 addresses included); other sockets are
    /// refused.
    pub fn new(socket: &TcpSocket, processes: Vec<Process>) -> (r: Result<Self, ConnectionError>)
        ensures
            r == spec_connection(*socket, processes),
    {
        let remote_ip = match to_ipv4(socket.remote_addr) {
            Ok(ip) => ip,
            Err(e) => return Err(ConnectionError::Address(e)),
        };
        if !is_global(remote_ip) {
            return Err(ConnectionError::NonGlobal);
        }
        let local_ip = match to_ipv4(socket.local_addr) {
            Ok(ip) => ip,
            Err(e) => return Err(ConnectionError::Address(e)),
        };
        Ok(
            Connection {
                local_address: local_ip,
                local_address_port: socket.local_port,
                remote_address: remote_ip,
                remote_address_port: socket.remote_port,
                state: socket.state.clone(),
                inode: socket.inode,
                processes,
            },
        )
    }
}

impl Connection {
    /// The cached geolocation of the remote end; `None` means a query is due.
    pub fn geolocation<'a, L>(&self, geo_client: &'a GeolocationClient<L>) -> (r: Option<&'a L>)
        requires
            geo_client.wf(),
        ensures
            match r {
                Some(l) => geo_client@.contains_key(self.remote_address) && *l
                    == geo_client@[self.remote_address],
                None => !geo_client@.contains_key(self.remote_address),
            },
    {
        geo_client.geolocate(&self.remote_address)
    }
}

/// The process listed for `pid`, given what the process table answered
/// for it: the process's own pid and name when it was found.
pub open spec fn spec_process(pid: u32, found: Option<(u32, String)>) -> Process {
    match found {
        Some((own_pid, name)) => Process { pid: own_pid, name: Some(name) },
        None => Process { pid, name: None },
    }
}

/// A process found in the process table is listed with its own pid and
/// name; a pid the table does not list is kept, with no name.
pub proof fn law_process_of_lookup(pid: u32, own_pid: u32, name: String)
    ensures
        spec_process(pid, Some((own_pid, name))).pid == own_pid,
        spec_process(pid, Some((own_pid, name))).name == Some(name),
        spec_process(pid, None).pid == pid,
        spec_process(pid, None).name is None,
{
}

/// The processes holding a socket, one for each pid, from what the process
/// table answered for each (`found[i]` for `pids[i]`).
pub fn get_process_info(pids: &Vec<u32>, found: &Vec<Option<(u32, String)>>) -> (r: Vec<Process>)
    requires
        pids.len() == found.len(),
    ensures
        r.len() == pids.len(),
        forall|i: int| 0 <= i < pids.len() ==> r[i] == spec_process(pids[i], found[i]),
{
    let mut r: Vec<Process> = Vec::new();
    let mut i: usize = 0;
    while i < pids.len()
        invariant
            pids.len() == found.len(),
            i <= pids.len(),
            r.len() == i,
            forall|j: int| 0 <= j < i ==> r[j] == spec_process(pids[j], found[j]),
        decreases pids.len() - i,
    {
        let process = match &found[i] {
            Some((own_pid, name)) => Process { pid: *own_pid, name: Some(name.clone()) },
            None => Process { pid: pids[i], name: None },
        };
        r.push(process);
        i += 1;
    }
    r
}

/// The connections that a list of sockets, each with the processes holding
/// it, makes: one for each socket that is accepted, in the same order.
pub open spec fn spec_connections(candidates: Seq<(TcpSocket, Vec<Process>)>) -> Seq<Connection>
    decreases candidates.len(),
{
    if candidates.len() == 0 {
        Seq::empty()
    } else {
        let before = spec_connections(candidates.drop_last());
        match spec_connection(candidates.last().0, candidates.last().1) {
            Ok(c) => before.push(c),
            Err(_) => before,
        }
    }
}

/// Only connections to globally routable addresses are listed, and each
/// listed connection comes from one of the listed sockets.
pub proof fn law_listed_connections_are_global(candidates: Seq<(TcpSocket, Vec<Process>)>)
    ensures
        forall|i: int|
            0 <= i < spec_connections(candidates).len() ==> spec_is_global(
                #[trigger] spec_connections(candidates)[i].remote_address,
            ),
        spec_connections(candidates).len() <= candidates.len(),
    decreases candidates.len(),
{
    if candidates.len() > 0 {
        law_listed_connections_are_global(candidates.drop_last());
        let before = spec_connections(candidates.drop_last());
        assert forall|i: int|
            0 <= i < spec_connections(candidates).len() implies spec_is_global(
            #[trigger] spec_connections(candidates)[i].remote_address,
        ) by {
            if i < before.len() {
                assert(spec_connections(candidates)[i] == before[i]);
            }
        }
    }
}

/// A socket makes a connection exactly when both ends are IPv4 (mapped
/// IPv6 addresses included) and the remote end is global; the connection carries the socket's
/// own addresses, ports, state and inode, and the processes given for it.
pub proof fn law_connection_of_socket(socket: TcpSocket, processes: Vec<Process>)
    ensures
        spec_connection(socket, processes) is Ok <==> (spec_to_ipv4(socket.local_addr) is Ok
            && spec_to_ipv4(socket.remote_addr) is Ok && spec_is_global(spec_to_ipv4(socket.remote_addr)->Ok_0)),
        spec_connection(socket, processes) matches Ok(c) ==> {
            &&& Ok::<u32, AddressError>(c.local_address) == spec_to_ipv4(socket.local_addr)
            &&& Ok::<u32, AddressError>(c.remote_address) == spec_to_ipv4(socket.remote_addr)
            &&& c.local_address_port == socket.local_port
            &&& c.remote_address_port == socket.remote_port
            &&& c.state == socket.state
            &&& c.inode == socket.inode
            &&& c.processes == processes
        },
{
}

/// Whether a socket, with the processes holding it, makes a connection.
pub open spec fn accepted() -> spec_fn((TcpSocket, Vec<Process>)) -> bool {
    |x: (TcpSocket, Vec<Process>)| spec_connection(x.0, x.1) is Ok
}

/// The table lists one connection for each accepted socket and none for
/// the others, in the order the sockets came: the `k`-th connection is the
/// one that the `k`-th accepted socket makes.
pub proof fn law_table_lists_accepted_sockets_in_order(
    candidates: Seq<(TcpSocket, Vec<Process>)>,
)
    ensures
        spec_connections(candidates).len() == candidates.filter(accepted()).len(),
        forall|k: int|
            0 <= k < spec_connections(candidates).len() ==> spec_connection(
                candidates.filter(accepted())[k].0,
                candidates.filter(accepted())[k].1,
            ) == Ok::<Connection, ConnectionError>(#[trigger] spec_connections(candidates)[k]),
    decreases candidates.len(),
{
    reveal_with_fuel(Seq::<(TcpSocket, Vec<Process>)>::filter, 1);
    if candidates.len() > 0 {
        law_table_lists_accepted_sockets_in_order(candidates.drop_last());
        let f = candidates.drop_last().filter(accepted());
        let before = spec_connections(candidates.drop_last());
        assert(candidates.filter(accepted()) == if accepted()(candidates.last()) {
            f.push(candidates.last())
        } else {
            f
        });
        assert forall|k: int|
            0 <= k < spec_connections(candidates).len() implies spec_connection(
            candidates.filter(accepted())[k].0,
            candidates.filter(accepted())[k].1,
        ) == Ok::<Connection, ConnectionError>(#[trigger] spec_connections(candidates)[k]) by {
            if k < before.len() {
                assert(spec_connections(candidates)[k] == before[k]);
                assert(candidates.filter(accepted())[k] == f[k]);
            }
        }
    } else {
        assert(candidates.filter(accepted()) =~= candidates);
    }
}

/// The table of TCP connections.
pub struct Netstat {
    connections: Vec<Connection>,
}

impl View for Netstat {
    type V = Seq<Connection>;

    closed spec fn view(&self) -> Seq<Connection> {
        self.connections@
    }
}

impl Netstat {
    /// An empty table.
    pub fn new() -> (r: Self)
        ensures
            r@ == Seq::<Connection>::empty(),
    {
        Netstat { connections: Vec::new() }
    }

    /// The connections, in the order they were listed.
    pub fn connections(&self) -> (r: &Vec<Connection>)
        ensures
            r@ == self@,
    {
        &self.connections
    }

    /// Rebuilds the table from scratch out of the sockets listed now, each
    /// with the processes holding it.
    pub fn get_net_connections(&mut self, candidates: Vec<(TcpSocket, Vec<Process>)>)
        ensures
            final(self)@ == spec_connections(candidates@),
    {
        let ghost all = candidates@;
        assert(all.len() == candidates.len());
        let mut rest = candidates;
        self.connections.clear();
        let mut k: usize = 0;
        while rest.len() > 0
            invariant
                k <= all.len(),
                all.len() <= usize::MAX,
                rest.len() + k == all.len(),
                rest@ == all.skip(k as int),
                self.connections@ == spec_connections(all.take(k as int)),
            decreases rest.len(),
        {
            let (socket, processes) = rest.remove(0);
            proof {
                assert(all.take(k + 1).drop_last() =~= all.take(k as int));
                assert(all.take(k + 1).last() == all[k as int]);
            }
            if let Ok(connection) = Connection::new(&socket, processes) {
                self.connections.push(connection);
            }
            k += 1;
            proof {
                assert(rest@ =~= all.skip(k as int));
            }
        }
        proof {
            assert(all.take(k as int) =~= all);
        }
    }
}

} // verus!
