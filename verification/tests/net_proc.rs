use geohog::net::net_proc::{get_tcp, split_address, SocketOwner, TcpEntry};

fn entry(local: &str, remote: &str, inode: u64) -> TcpEntry {
    TcpEntry {
        local_address: local.to_owned(),
        remote_address: remote.to_owned(),
        state: "Established".to_owned(),
        inode,
    }
}

fn owner(inode: u64, pid: i32, comm: &str) -> SocketOwner {
    SocketOwner { inode, pid, comm: comm.to_owned() }
}

#[test]
fn split_address_takes_first_two_fields() {
    assert_eq!(split_address(&"10.0.0.1:8080".to_owned()), ("10.0.0.1".to_owned(), "8080".to_owned()));
    assert_eq!(split_address(&":".to_owned()), (String::new(), String::new()));
    assert_eq!(split_address(&"a:b:c".to_owned()), ("a".to_owned(), "b".to_owned()));
}

#[test]
fn tcp_rows_are_joined_with_their_owner() {
    let owners = vec![owner(11, 100, "firefox"), owner(12, 200, "ssh"), owner(11, 300, "helper")];
    let entries = vec![
        entry("10.0.0.2:5000", "1.1.1.1:443", 11),
        entry("10.0.0.2:5001", "2.2.2.2:22", 13),
        entry("10.0.0.2:5002", "3.3.3.3:22", 12),
    ];
    let r = get_tcp(&owners, &entries);
    assert_eq!(r.len(), 2);
    assert_eq!(r[0].local_address, "10.0.0.2");
    assert_eq!(r[0].local_address_port, "5000");
    assert_eq!(r[0].remote_address, "1.1.1.1");
    assert_eq!(r[0].remote_address_port, "443");
    assert_eq!(r[0].state, "Established");
    assert_eq!(r[0].inode, 11);
    // the owner listed last wins
    assert_eq!((r[0].pid, r[0].comm.as_str()), (300, "helper"));
    assert_eq!((r[1].pid, r[1].comm.as_str()), (200, "ssh"));
    assert_eq!(r[1].remote_address_port, "22");
}

#[test]
fn unowned_rows_are_dropped() {
    let r = get_tcp(&vec![], &vec![entry("1.2.3.4:1", "5.6.7.8:2", 1)]);
    assert!(r.is_empty());
}
