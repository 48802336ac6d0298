use inf_server::clients::{format_client_line, valid_client_name, ClientInfo, ClientRegistry};

#[test]
fn register_kill_sweep_roundtrip() {
    let mut reg = ClientRegistry::default();
    reg.register(7, 70, "1.2.3.4:5".to_string(), 1000);
    reg.register(9, 90, "1.2.3.4:6".to_string(), 2000);
    assert!(reg.request_kill(9));
    assert!(!reg.request_kill(404));
    assert_eq!(reg.take_kill_requests(), vec![9]);
    assert!(reg.take_kill_requests().is_empty(), "marks drain");
    reg.unregister(7);
    assert_eq!(reg.len(), 1);
}

#[test]
fn name_charset_matches_redis_rule() {
    assert!(valid_client_name(b"worker-1"));
    assert!(valid_client_name(b""));
    assert!(!valid_client_name(b"has space"));
    assert!(!valid_client_name(b"new\nline"));
    assert!(!valid_client_name(&[0xFF]));
}

#[test]
fn registry_lists_in_id_order_and_tracks_state() {
    let mut reg = ClientRegistry::default();
    assert!(reg.is_empty());
    reg.register(9, 90, "1.2.3.4:6".to_string(), 2000);
    reg.register(3, 30, "1.2.3.4:5".to_string(), 1000);
    reg.ensure(5, 1500).name = b"mid".to_vec();
    reg.note_conn_state(3, 0, 4, 1, 2);
    reg.set_resp(3, 3);
    reg.set_resp(77, 3);
    let ids: Vec<u64> = reg.iter().iter().map(|row| row.0).collect();
    assert_eq!(ids, vec![3, 5, 9]);
    let third = reg.get(3).expect("registered");
    assert_eq!((third.db, third.sub, third.psub, third.resp), (4, 1, 2, 3));
    assert_eq!(reg.get(5).expect("ensured").addr, "0.0.0.0:0");
    assert_eq!(reg.conn_key(9), Some(90));
    assert_eq!(reg.conn_key(5), None);
    assert!(reg.get(77).is_none());
}

#[test]
fn client_line_renders_every_field() {
    let mut reg = ClientRegistry::default();
    reg.register(7, 70, "1.2.3.4:5".to_string(), 1000);
    reg.ensure(7, 0).name = b"w".to_vec();
    let line = format_client_line(7, reg.get(7).expect("registered"), 12, "client");
    assert_eq!(
        line,
        "id=7 addr=1.2.3.4:5 laddr=0.0.0.0:0 fd=-1 name=w age=12 idle=0 flags=N db=0 sub=0 psub=0 \
         ssub=0 multi=-1 watch=0 qbuf=0 qbuf-free=0 argv-mem=0 multi-mem=0 tot-net-in=0 \
         tot-net-out=0 rbs=1024 rbp=0 obl=0 oll=0 omem=0 tot-mem=0 events=r cmd=client \
         user=default redir=-1 resp=2 lib-name= lib-ver= tot-cmds=0"
    );
}

#[test]
fn a_known_client_changes_in_place() {
    let mut reg = ClientRegistry::default();
    reg.register(3, 30, "1.2.3.4:5".to_string(), 1);
    reg.set_resp(3, 3);
    reg.set_resp(4, 3);
    assert_eq!(reg.get(3).map(|c| c.resp), Some(3));
    assert!(reg.get(4).is_none(), "an unknown client is not registered");
    reg.ensure(1, 9).name = b"first".to_vec();
    reg.ensure(3, 9).name = b"third".to_vec();
    let listed: Vec<(u64, &[u8])> =
        reg.iter().into_iter().map(|(id, c)| (id, c.name.as_slice())).collect();
    assert_eq!(listed, [(1, b"first".as_slice()), (3, b"third".as_slice())]);
    assert!(reg.request_kill(3) && reg.request_kill(1));
    assert_eq!(reg.take_kill_requests(), [1, 3]);
    assert!(!reg.get(3).expect("kept").kill_requested);
    assert_eq!((reg.len(), reg.is_empty()), (2, false));
    assert_eq!(ClientInfo::default().resp, 0);
}
