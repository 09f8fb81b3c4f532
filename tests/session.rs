use dfut::{Action, Command, Connection, DFut, DFutData, Outstanding, SessionError, SessionKind};

fn data(instance_id: u128) -> DFutData {
    DFutData { node: 1, id: 77, instance_id, parent: 0, children: 0 }
}

#[test]
fn completed_reaches_its_retrieval() {
    let mut table: Outstanding<&'static str> = Outstanding::new();
    assert_eq!(table.register(&data(5), "reply-5"), Ok(()));
    assert_eq!(table.register(&data(6), "reply-6"), Ok(()));
    assert_eq!(table.register(&data(5), "again"), Err(SessionError::DuplicateRequest));
    let cmd: Command<()> = Command::Completed { id: 6, payload: vec![1, 2] };
    match table.on_incoming(cmd) {
        Ok(Action::Reply { reply, payload }) => {
            assert_eq!(reply, "reply-6");
            assert_eq!(payload, vec![1, 2]);
        }
        _ => panic!("expected a reply"),
    }
    assert_eq!(table.len(), 1);
    let unknown: Command<()> = Command::Completed { id: 6, payload: vec![3] };
    assert!(matches!(table.on_incoming(unknown), Err(SessionError::UnknownRequest)));
}

#[test]
fn incoming_calls_and_retrievals() {
    let mut table: Outstanding<u8> = Outstanding::new();
    match table.on_incoming(Command::Call { id: 3, call: "add" }) {
        Ok(Action::RunTask { id, call }) => {
            assert_eq!(id, 3);
            assert_eq!(call, "add");
        }
        _ => panic!("expected a task"),
    }
    let cmd: Command<&str> = Command::Retrieve { data: data(9) };
    match table.on_incoming(cmd) {
        Ok(Action::Serve { data, reply_to }) => {
            assert_eq!(data.id, 77);
            assert_eq!(reply_to, 9);
        }
        _ => panic!("expected a retrieval to serve"),
    }
    assert_eq!(table.len(), 0);
}

#[test]
fn restart_aborts_outstanding_retrievals() {
    let mut conn: Connection<Outstanding<&'static str>> = Connection::new(1);
    assert!(!conn.is_started());
    let mut first = Outstanding::new();
    first.register(&data(5), "a").unwrap();
    first.register(&data(6), "b").unwrap();
    assert!(conn.start_remote(first).is_none());
    // the peer opens a new stream: the old session comes back to be aborted
    let mut old = conn.start_remote(Outstanding::new()).unwrap();
    let gone = old.abort();
    assert_eq!(gone.len(), 2);
    assert_eq!(old.len(), 0);
    // the new session takes new retrievals
    let fresh = match conn.remote() {
        Some(s) => s,
        None => panic!("expected a remote session"),
    };
    assert_eq!(fresh.len(), 0);
    assert_eq!(conn.id(), 1);
}

#[test]
fn local_session() {
    let mut conn: Connection<()> = Connection::new(0);
    conn.start_local();
    assert!(conn.is_local());
    assert!(conn.is_started());
    assert!(conn.remote().is_none());
    assert!(matches!(SessionKind::<()>::Local, SessionKind::Local));
}

#[test]
fn clone_counts_children() {
    let mut a = DFut::new(2, 99);
    let b = a.fork();
    let c = a.fork();
    let da = a.into_data();
    let db = b.into_data();
    let dc = c.into_data();
    assert_eq!(da.children, 2);
    assert_eq!(da.parent, 0);
    assert_ne!(da.instance_id, 0);
    assert_eq!(db.parent, da.instance_id);
    assert_eq!(dc.parent, da.instance_id);
    assert_eq!((db.node, db.id, db.children), (2, 99, 0));
    assert_ne!(db.instance_id, dc.instance_id);
}
