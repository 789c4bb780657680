use schooner::schooner::peer::{parse_config_lines, Peer};

fn write_config(n: usize) -> Vec<String> {
    let mut lines = Vec::new();
    let mut port = 23158;
    let mut id = 1;
    for _ in 0..n {
        lines.push(format!("peer.{}.addr = 127.0.0.1:{}", id, port));
        id += 1;
        port += 1;
    }
    lines
}

// this one is bad because the second entry has no port
fn write_bad_config() -> Vec<String> {
    vec!["peer.1.addr = 127.0.0.1:2133".to_string(), "peer.2.addr = 127.0.0.1".to_string()]
}

#[test]
fn test_valid_config_file_with_corrupt_entry() {
    let result = parse_config_lines(&write_bad_config());
    assert!(result.is_err());
}

#[test]
fn test_valid_config_file_with_one_peer_entry() {
    let result = parse_config_lines(&write_config(1));
    assert!(result.is_ok());

    let peers: Vec<Peer> = result.unwrap();
    assert_eq!(1, peers.len());

    let peer1 = &peers[0];
    assert_eq!(1, peer1.id);
    assert_eq!("127.0.0.1", peer1.ip);
    assert_eq!(23158, peer1.tcpport);
    assert_eq!(0, peer1.next_idx);
}

#[test]
fn test_valid_config_file_with_five_peer_entries() {
    let result = parse_config_lines(&write_config(5));
    assert!(result.is_ok());

    let peers: Vec<Peer> = result.unwrap();
    assert_eq!(5, peers.len());

    let expected = [(1, 23158), (2, 23159), (3, 23160), (4, 23161), (5, 23162)];
    for (peer, (id, port)) in peers.iter().zip(expected.iter()) {
        assert_eq!(*id, peer.id);
        assert_eq!("127.0.0.1", peer.ip);
        assert_eq!(*port, peer.tcpport);
        assert_eq!(0, peer.next_idx);
    }
}

#[test]
fn config_errors_say_what_is_wrong() {
    let e = parse_config_lines(&vec!["peer.1.addr 127.0.0.1:1".to_string()]).unwrap_err();
    assert_eq!("badly formed property", e.desc);
    assert_eq!(Some("bad line: peer.1.addr 127.0.0.1:1".to_string()), e.detail);

    let e = parse_config_lines(&vec![" node.1.addr = 127.0.0.1:1".to_string()]).unwrap_err();
    assert_eq!("badly formed config key", e.desc);
    assert_eq!(Some("bad key: node.1.addr".to_string()), e.detail);

    let e = parse_config_lines(&vec!["peer.1.x.addr = 1.2.3.4:1".to_string()]).unwrap_err();
    assert_eq!(Some("bad key: peer.1.x.addr".to_string()), e.detail);

    let e = parse_config_lines(&vec!["peer.x.addr = 1.2.3.4:1".to_string()]).unwrap_err();
    assert_eq!(Some("cannot parse id from second field; bad key: peer.x.addr".to_string()), e.detail);

    let e = parse_config_lines(&vec!["peer.2.addr = :80".to_string()]).unwrap_err();
    assert_eq!("badly formed config value", e.desc);
    assert_eq!(Some("bad val: :80 for key peer.2.addr".to_string()), e.detail);

    let e = parse_config_lines(&vec!["peer.2.addr = h:eighty".to_string()]).unwrap_err();
    assert_eq!(Some("bad val: h:eighty port is not an integer. (For key peer.2.addr)".to_string()), e.detail);
}

#[test]
fn comments_are_skipped() {
    let lines = vec![
        "  # peers of the cluster".to_string(),
        "peer.3.addr=10.0.0.1:+99".to_string(),
        "#peer.4.addr = broken".to_string(),
    ];
    let peers = parse_config_lines(&lines).unwrap();
    assert_eq!(1, peers.len());
    assert_eq!((3, "10.0.0.1".to_string(), 99), (peers[0].id, peers[0].ip.clone(), peers[0].tcpport));
}
