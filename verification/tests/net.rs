use geohog::net::dispatch::{plan_dispatch, Dispatch};
use geohog::net::geolocate::ip_api::{Dispatcher, Job, JobQueueManager, JobQueueMessage};
use geohog::net::geolocate::GeolocationClient;
use geohog::net::ip::{is_global, octets, to_ipv4, AddressError, IpAddress};
use geohog::net::ip_api::{Client, RequestLimiter};
use geohog::net::{get_process_info, Connection, ConnectionError, Netstat, Process, TcpSocket};

fn v4(a: u8, b: u8, c: u8, d: u8) -> u32 {
    u32::from_be_bytes([a, b, c, d])
}

fn mapped(ip: u32) -> u128 {
    0xffff_0000_0000u128 | ip as u128
}

#[test]
fn octets_are_big_endian() {
    assert_eq!(octets(v4(192, 168, 1, 20)), (192, 168, 1, 20));
    assert_eq!(octets(0), (0, 0, 0, 0));
    assert_eq!(octets(u32::MAX), (255, 255, 255, 255));
}

#[test]
fn special_ranges_are_not_global() {
    for ip in [
        v4(0, 0, 0, 0),
        v4(0, 255, 255, 255),
        v4(127, 0, 0, 1),
        v4(10, 1, 2, 3),
        v4(172, 16, 0, 1),
        v4(172, 31, 255, 255),
        v4(192, 168, 0, 1),
        v4(100, 64, 0, 1),
        v4(100, 127, 255, 255),
        v4(169, 254, 10, 10),
        v4(192, 0, 0, 1),
        v4(192, 0, 2, 1),
        v4(198, 51, 100, 1),
        v4(203, 0, 113, 1),
        v4(198, 18, 0, 1),
        v4(198, 19, 255, 255),
        v4(224, 0, 0, 1),
        v4(239, 255, 255, 255),
        v4(240, 0, 0, 1),
        v4(255, 255, 255, 255),
    ] {
        assert!(!is_global(ip), "{:?} should not be global", octets(ip));
    }
}

#[test]
fn ordinary_addresses_are_global() {
    for ip in [
        v4(1, 1, 1, 1),
        v4(8, 8, 8, 8),
        v4(172, 15, 255, 255),
        v4(172, 32, 0, 0),
        v4(100, 63, 255, 255),
        v4(100, 128, 0, 0),
        v4(192, 0, 0, 9),
        v4(192, 0, 0, 10),
        v4(198, 17, 0, 1),
        v4(198, 20, 0, 1),
        v4(223, 255, 255, 255),
        v4(169, 253, 0, 1),
    ] {
        assert!(is_global(ip), "{:?} should be global", octets(ip));
    }
}

#[test]
fn ipv4_mapped_ipv6_is_canonicalized() {
    let ip = v4(93, 184, 216, 34);
    assert_eq!(to_ipv4(IpAddress::V4(ip)), Ok(ip));
    assert_eq!(to_ipv4(IpAddress::V6(mapped(ip))), Ok(ip));
    assert_eq!(to_ipv4(IpAddress::V6(1)), Err(AddressError::Ipv6));
    // ::a.b.c.d (IPv4-compatible) is not canonicalized
    assert_eq!(to_ipv4(IpAddress::V6(ip as u128)), Err(AddressError::Ipv6));
}

fn socket(local: IpAddress, remote: IpAddress) -> TcpSocket {
    TcpSocket {
        local_addr: local,
        local_port: 50000,
        remote_addr: remote,
        remote_port: 443,
        state: "ESTABLISHED".to_owned(),
        inode: 77,
        associated_pids: vec![12],
    }
}

fn process(pid: u32) -> Vec<Process> {
    vec![Process { pid, name: Some("curl".to_owned()) }]
}

#[test]
fn connection_to_global_address() {
    let local = v4(192, 168, 1, 2);
    let remote = v4(1, 1, 1, 1);
    let c = Connection::new(&socket(IpAddress::V4(local), IpAddress::V6(mapped(remote))), process(12))
        .unwrap();
    assert_eq!(c.local_address, local);
    assert_eq!(c.local_address_port, 50000);
    assert_eq!(c.remote_address, remote);
    assert_eq!(c.remote_address_port, 443);
    assert_eq!(c.state, "ESTABLISHED");
    assert_eq!(c.inode, 77);
    assert_eq!(c.processes.len(), 1);
    assert_eq!(c.processes[0].pid, 12);
}

#[test]
fn connection_errors() {
    let local = IpAddress::V4(v4(192, 168, 1, 2));
    let r = Connection::new(&socket(local, IpAddress::V4(v4(127, 0, 0, 1))), vec![]);
    assert!(matches!(r, Err(ConnectionError::NonGlobal)));
    let r = Connection::new(&socket(local, IpAddress::V6(1)), vec![]);
    assert!(matches!(r, Err(ConnectionError::Address(AddressError::Ipv6))));
    let r = Connection::new(&socket(IpAddress::V6(1), IpAddress::V4(v4(8, 8, 8, 8))), vec![]);
    assert!(matches!(r, Err(ConnectionError::Address(AddressError::Ipv6))));
}

#[test]
fn process_info_uses_found_processes() {
    let pids = vec![5, 6];
    let found = vec![Some((5, "sshd".to_owned())), None];
    let r = get_process_info(&pids, &found);
    assert_eq!(r.len(), 2);
    assert_eq!(r[0].pid, 5);
    assert_eq!(r[0].name.as_deref(), Some("sshd"));
    assert_eq!(r[1].pid, 6);
    assert_eq!(r[1].name, None);
}

#[test]
fn netstat_keeps_only_accepted_sockets_in_order() {
    let mut netstat = Netstat::new();
    assert!(netstat.connections().is_empty());
    let local = IpAddress::V4(v4(10, 0, 0, 2));
    let candidates = vec![
        (socket(local, IpAddress::V4(v4(8, 8, 8, 8))), process(1)),
        (socket(local, IpAddress::V4(v4(127, 0, 0, 1))), process(2)),
        (socket(local, IpAddress::V4(v4(9, 9, 9, 9))), process(3)),
    ];
    netstat.get_net_connections(candidates);
    let c = netstat.connections();
    assert_eq!(c.len(), 2);
    assert_eq!(c[0].remote_address, v4(8, 8, 8, 8));
    assert_eq!(c[1].remote_address, v4(9, 9, 9, 9));
    netstat.get_net_connections(vec![]);
    assert!(netstat.connections().is_empty());
}

#[test]
fn connection_geolocation_reads_cache() {
    let mut geo: GeolocationClient<&str> = GeolocationClient::new();
    let remote = v4(1, 1, 1, 1);
    let c = Connection::new(&socket(IpAddress::V4(v4(10, 0, 0, 2)), IpAddress::V4(remote)), vec![])
        .unwrap();
    assert_eq!(c.geolocation(&geo), None);
    geo.insert(remote, "Sydney");
    assert_eq!(c.geolocation(&geo), Some(&"Sydney"));
    assert_eq!(geo.geolocate(&v4(2, 2, 2, 2)), None);
}

fn shape(plan: &[Dispatch<u32>]) -> Vec<(bool, Vec<u32>)> {
    plan.iter()
        .map(|d| match d {
            Dispatch::Batch(v) => (true, v.clone()),
            Dispatch::Single(x) => (false, vec![*x]),
        })
        .collect()
}

#[test]
fn plan_splits_into_batches_of_one_hundred() {
    let jobs: Vec<u32> = (0..250).collect();
    let plan = shape(&plan_dispatch(jobs, 5));
    assert_eq!(plan.len(), 3);
    assert_eq!(plan[0], (true, (0..100).collect()));
    assert_eq!(plan[1], (true, (100..200).collect()));
    assert_eq!(plan[2], (true, (200..250).collect()));
}

#[test]
fn plan_sends_small_remainder_as_singles() {
    let jobs: Vec<u32> = (0..103).collect();
    let plan = shape(&plan_dispatch(jobs, 5));
    assert_eq!(plan.len(), 4);
    assert_eq!(plan[0], (true, (0..100).collect()));
    assert_eq!(plan[1], (false, vec![100]));
    assert_eq!(plan[2], (false, vec![101]));
    assert_eq!(plan[3], (false, vec![102]));
}

#[test]
fn plan_threshold_is_exclusive() {
    let plan = shape(&plan_dispatch(vec![1, 2, 3, 4, 5], 5));
    assert_eq!(plan, vec![(false, vec![1]), (false, vec![2]), (false, vec![3]), (false, vec![4]), (false, vec![5])]);
    let plan = shape(&plan_dispatch(vec![1, 2, 3, 4, 5, 6], 5));
    assert_eq!(plan, vec![(true, vec![1, 2, 3, 4, 5, 6])]);
    assert!(plan_dispatch(Vec::<u32>::new(), 5).is_empty());
}

#[test]
fn client_requests_each_address_once() {
    let mut client: Client<String> = Client::new();
    let ip = v4(8, 8, 4, 4);
    assert!(client.request(ip));
    assert!(!client.request(ip));
    assert_eq!(client.geolocate(&ip), None);
    client.finish_job(ip, "Mountain View".to_owned());
    assert_eq!(client.geolocate(&ip).map(|s| s.as_str()), Some("Mountain View"));
    assert!(!client.request(ip));
    assert!(client.request(v4(1, 0, 0, 1)));
}

#[test]
fn request_limiter_sends_newest_first() {
    let mut limiter = RequestLimiter::new();
    for ip in 1..=3u32 {
        limiter.queue_job(ip);
    }
    let plan = shape(&limiter.dispatch_jobs());
    assert_eq!(plan, vec![(false, vec![3]), (false, vec![2]), (false, vec![1])]);
    assert!(limiter.dispatch_jobs().is_empty());
    for ip in 1..=6u32 {
        limiter.queue_job(ip);
    }
    let plan = shape(&limiter.dispatch_jobs());
    assert_eq!(plan, vec![(true, vec![6, 5, 4, 3, 2, 1])]);
}

#[test]
fn request_limiter_batches_exactly_five() {
    let mut limiter = RequestLimiter::new();
    for ip in [v4(1, 1, 1, 1), v4(2, 2, 2, 2), v4(3, 3, 3, 3), v4(4, 4, 4, 4), v4(5, 5, 5, 5)] {
        limiter.queue_job(ip);
    }
    let plan = shape(&limiter.dispatch_jobs());
    assert_eq!(
        plan,
        vec![(true, vec![v4(5, 5, 5, 5), v4(4, 4, 4, 4), v4(3, 3, 3, 3), v4(2, 2, 2, 2), v4(1, 1, 1, 1)])]
    );
    for ip in 1..=4u32 {
        limiter.queue_job(ip);
    }
    let plan = shape(&limiter.dispatch_jobs());
    assert_eq!(plan, vec![(false, vec![4]), (false, vec![3]), (false, vec![2]), (false, vec![1])]);
    assert!(limiter.dispatch_jobs().is_empty());
}

#[test]
fn request_limiter_remainder_of_five_is_batched() {
    let mut limiter = RequestLimiter::new();
    for ip in 0..105u32 {
        limiter.queue_job(ip);
    }
    let plan = shape(&limiter.dispatch_jobs());
    assert_eq!(plan.len(), 2);
    assert_eq!(plan[0], (true, (5..105).rev().collect()));
    assert_eq!(plan[1], (true, vec![4, 3, 2, 1, 0]));
}

#[test]
fn job_queue_refuses_pending_address() {
    let mut queue = JobQueueManager::new();
    let ip = v4(4, 4, 4, 4);
    let r = queue.handle_message(JobQueueMessage::Insert(Job { ip, reply: 1 }));
    assert_eq!(r.map(|j| (j.ip, j.reply)), Some((ip, 1)));
    let r = queue.handle_message(JobQueueMessage::Insert(Job { ip, reply: 2 }));
    assert!(r.is_none());
    assert!(queue.handle_message(JobQueueMessage::<i32>::Remove(ip)).is_none());
    let r = queue.handle_message(JobQueueMessage::Insert(Job { ip, reply: 3 }));
    assert_eq!(r.map(|j| j.reply), Some(3));
}

#[test]
fn dispatcher_batches_more_than_three() {
    let mut d: Dispatcher<u32> = Dispatcher::new();
    assert!(!d.has_jobs());
    for ip in [1, 2, 3] {
        d.push(ip);
    }
    assert!(d.has_jobs());
    assert_eq!(shape(&d.dispatch_jobs()), vec![(false, vec![1]), (false, vec![2]), (false, vec![3])]);
    assert!(!d.has_jobs());
    for ip in [1, 2, 3, 4] {
        d.push(ip);
    }
    assert_eq!(shape(&d.dispatch_jobs()), vec![(true, vec![1, 2, 3, 4])]);
}
