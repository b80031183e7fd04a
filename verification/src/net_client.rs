//! The connection table that the dashboard shows: every TCP connection
//! with an IPv4 address at both ends (IPv4-mapped IPv6 addresses included),
//! whatever the remote end.

use vstd::prelude::*;
use crate::net::TcpSocket;
use crate::net::ip::{AddressError, spec_to_ipv4, to_ipv4};

verus! {

/// A TCP connection between two IPv4 addresses.
#[derive(Debug)]
pub struct Connection {
    pub local_address: u32,
    pub local_address_port: u16,
    pub remote_address: u32,
    pub remote_address_port: u16,
    pub state: String,
    pub inode: u32,
    pub processes: Vec<Process>,
}

/// How a connection is shown on screen.
pub struct ConnectionDisplay {}

/// A process that holds a socket open.
#[derive(Debug)]
pub struct Process {
    pid: u32,
    name: Option<String>,
}

impl Process {
    /// The pid of the process.
    pub closed spec fn spec_pid(&self) -> u32 {
        self.pid
    }

    /// The name of the process, when the process table still lists it.
    pub closed spec fn spec_name(&self) -> Option<String> {
        self.name
    }
}

/// The connection that a socket and the processes holding it make, or why there is none.
pub open spec fn spec_connection(socket: TcpSocket, processes: Vec<Process>) -> Result<
    Connection,
    AddressError,
> {
    match spec_to_ipv4(socket.local_addr) {
        Err(e) => Err(e),
        Ok(local) => match spec_to_ipv4(socket.remote_addr) {
            Err(e) => Err(e),
            Ok(remote) => Ok(
                Connection {
                    local_address: local,
                    local_address_port: socket.local_port,
                    remote_address: remote,
                    remote_address_port: socket.remote_port,
                    state: socket.state,
                    inode: socket.inode,
                    processes,
                },
            ),
        },
    }
}

impl Connection {
    /// The connection of a socket; refused when an end is IPv6 and does
    /// not map an IPv4 address.
    pub fn new(socket: &TcpSocket, processes: Vec<Process>) -> (r: Result<Self, AddressError>)
        ensures
            r == spec_connection(*socket, processes),
    {
        let local_address = match to_ipv4(socket.local_addr) {
            Ok(ip) => ip,
            Err(e) => return Err(e),
        };
        let remote_address = match to_ipv4(socket.remote_addr) {
            Ok(ip) => ip,
            Err(e) => return Err(e),
        };
        Ok(
            Connection {
                local_address,
                local_address_port: socket.local_port,
                remote_address,
                remote_address_port: socket.remote_port,
                state: socket.state.clone(),
                inode: socket.inode,
                processes,
            },
        )
    }
}

/// The connections that a list of sockets, each with the processes holding
/// it, makes: one for each socket that is accepted, in the same order.
pub open spec fn spec_connections(candidates: Seq<(TcpSocket, Vec<Process>)>) -> Seq<Connection>
    decreases candidates.len(),
{
    if candidates.len() == 0 {
        Seq::empty()
    } else {
        let before = spec_connections(candidates.drop_last());
        match spec_connection(candidates.last().0, candidates.last().1) {
            Ok(c) => before.push(c),
            Err(_) => before,
        }
    }
}

/// A socket makes a connection exactly when both ends are IPv4 (mapped
/// IPv6 addresses included); the connection carries the socket's
/// own addresses, ports, state and inode, and the processes given for it.
pub proof fn law_connection_of_socket(socket: TcpSocket, processes: Vec<Process>)
    ensures
        spec_connection(socket, processes) is Ok <==> (spec_to_ipv4(socket.local_addr) is Ok
            && spec_to_ipv4(socket.remote_addr) is Ok),
        spec_connection(socket, processes) matches Ok(c) ==> {
            &&& Ok::<u32, AddressError>(c.local_address) == spec_to_ipv4(socket.local_addr)
            &&& Ok::<u32, AddressError>(c.remote_address) == spec_to_ipv4(socket.remote_addr)
            &&& c.local_address_port == socket.local_port
            &&& c.remote_address_port == socket.remote_port
            &&& c.state == socket.state
            &&& c.inode == socket.inode
            &&& c.processes == processes
        },
{
}

/// Whether a socket, with the processes holding it, makes a connection.
pub open spec fn accepted() -> spec_fn((TcpSocket, Vec<Process>)) -> bool {
    |x: (TcpSocket, Vec<Process>)| spec_connection(x.0, x.1) is Ok
}

/// The table lists one connection for each accepted socket and none for
/// the others, in the order the sockets came: the `k`-th connection is the
/// one that the `k`-th accepted socket makes.
pub proof fn law_table_lists_accepted_sockets_in_order(
    candidates: Seq<(TcpSocket, Vec<Process>)>,
)
    ensures
        spec_connections(candidates).len() == candidates.filter(accepted()).len(),
        forall|k: int|
            0 <= k < spec_connections(candidates).len() ==> spec_connection(
                candidates.filter(accepted())[k].0,
                candidates.filter(accepted())[k].1,
            ) == Ok::<Connection, AddressError>(#[trigger] spec_connections(candidates)[k]),
    decreases candidates.len(),
{
    reveal_with_fuel(Seq::<(TcpSocket, Vec<Process>)>::filter, 1);
    if candidates.len() > 0 {
        law_table_lists_accepted_sockets_in_order(candidates.drop_last());
        let f = candidates.drop_last().filter(accepted());
        let before = spec_connections(candidates.drop_last());
        assert(candidates.filter(accepted()) == if accepted()(candidates.last()) {
            f.push(candidates.last())
        } else {
            f
        });
        assert forall|k: int|
            0 <= k < spec_connections(candidates).len() implies spec_connection(
            candidates.filter(accepted())[k].0,
            candidates.filter(accepted())[k].1,
        ) == Ok::<Connection, AddressError>(#[trigger] spec_connections(candidates)[k]) by {
            if k < before.len() {
                assert(spec_connections(candidates)[k] == before[k]);
                assert(candidates.filter(accepted())[k] == f[k]);
            }
        }
    } else {
        assert(candidates.filter(accepted()) =~= candidates);
    }
}

/// The connection table.
pub struct NetClient {
    connections: Vec<Connection>,
}

impl View for NetClient {
    type V = Seq<Connection>;

    closed spec fn view(&self) -> Seq<Connection> {
        self.connections@
    }
}

impl NetClient {
    /// An empty table.
    pub fn new() -> (r: Self)
        ensures
            r@ == Seq::<Connection>::empty(),
    {
        NetClient { connections: Vec::new() }
    }

    /// The connections, in the order they were listed.
    pub fn connections(&self) -> (r: &Vec<Connection>)
        ensures
            r@ == self@,
    {
        &self.connections
    }

    /// Rebuilds the table from scratch out of the sockets listed now, each
    /// with the processes holding it.
    pub fn get_net_connections(&mut self, candidates: Vec<(TcpSocket, Vec<Process>)>)
        ensures
            final(self)@ == spec_connections(candidates@),
    {
        let ghost all = candidates@;
        assert(all.len() == candidates.len());
        let mut rest = candidates;
        self.connections.clear();
        let mut k: usize = 0;
        while rest.len() > 0
            invariant
                k <= all.len(),
                all.len() <= usize::MAX,
                rest.len() + k == all.len(),
                rest@ == all.skip(k as int),
                self.connections@ == spec_connections(all.take(k as int)),
            decreases rest.len(),
        {
            let (socket, processes) = rest.remove(0);
            proof {
                assert(all.take(k + 1).drop_last() =~= all.take(k as int));
                assert(all.take(k + 1).last() == all[k as int]);
            }
            if let Ok(connection) = Connection::new(&socket, processes) {
                self.connections.push(connection);
            }
            k += 1;
            proof {
                assert(rest@ =~= all.skip(k as int));
            }
        }
        proof {
            assert(all.take(k as int) =~= all);
        }
    }

    /// The processes holding a socket, one for each pid, from what the
    /// process table answered for each (`found[i]` for `pids[i]`: the
    /// process's own pid and name, when it was found).
    pub fn get_process_info(&self, pids: &Vec<u32>, found: &Vec<Option<(u32, String)>>) -> (r: Vec<
        Process,
    >)
        requires
            pids.len() == found.len(),
        ensures
            r.len() == pids.len(),
            forall|i: int|
                0 <= i < pids.len() ==> {
                    &&& r[i].spec_pid() == match found[i] {
                        Some((own_pid, _)) => own_pid,
                        None => pids[i],
                    }
                    &&& r[i].spec_name() == match found[i] {
                        Some((_, name)) => Some(name),
                        None => None,
                    }
                },
    {
        let mut r: Vec<Process> = Vec::new();
        let mut i: usize = 0;
        while i < pids.len()
            invariant
                pids.len() == found.len(),
                i <= pids.len(),
                r.len() == i,
                forall|j: int|
                    0 <= j < i ==> {
                        &&& r[j].spec_pid() == match found[j] {
                            Some((own_pid, _)) => own_pid,
                            None => pids[j],
                        }
                        &&& r[j].spec_name() == match found[j] {
                            Some((_, name)) => Some(name),
                            None => None,
                        }
                    },
            decreases pids.len() - i,
        {
            let process = match &found[i] {
                Some((own_pid, name)) => Process { pid: *own_pid, name: Some(name.clone()) },
                None => Process { pid: pids[i], name: None },
            };
            r.push(process);
            i += 1;
        }
        r
    }
}

} // verus!
