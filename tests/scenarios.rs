use dfut::{
    decode_frame, encode_frame, Action, Command, DFut, DFutData, Decoded, MaybeFut, Outstanding,
    PendingValue, TaskStore,
};

/// A call in these scenarios: add two arguments.
struct Add(MaybeFut<u64>, MaybeFut<u64>);

/// One node of a simulated cluster: its store, and its retrievals that wait,
/// each answered into the `u64` slot it names.
struct SimNode {
    id: u32,
    store: TaskStore<u64, ()>,
    waiting: Outstanding<usize>,
    retrieves_sent: usize,
}

impl SimNode {
    fn new(id: u32) -> Self {
        SimNode { id, store: TaskStore::new(), waiting: Outstanding::new(), retrieves_sent: 0 }
    }
}

/// The owner of a slot answers a retrieval: resolve, serialise, frame.
fn serve(owner: &mut SimNode, cmd: Command<Add>) -> Command<Add> {
    match owner.waiting.on_incoming(cmd) {
        Ok(Action::Serve { data, reply_to }) => match owner.store.get(&data, ()) {
            Ok(PendingValue::Value(v)) => {
                let framed = encode_frame(&v.to_be_bytes()).unwrap();
                Command::Completed { id: reply_to, payload: framed }
            }
            _ => panic!("the value is not ready"),
        },
        _ => panic!("expected a retrieval"),
    }
}

/// Fetches one argument on `node`, from whichever node owns it.
fn fetch(node: &mut SimNode, arg: MaybeFut<u64>, owners: &mut [&mut SimNode]) -> u64 {
    match arg {
        MaybeFut::Val(v) => v,
        MaybeFut::Fut(data) => {
            if data.node == node.id {
                match node.store.get(&data, ()) {
                    Ok(PendingValue::Value(v)) => v,
                    _ => panic!("the value is not ready"),
                }
            } else {
                let owner = owners.iter_mut().find(|o| o.id == data.node).unwrap();
                node.waiting.register(&data, 0).unwrap();
                node.retrieves_sent += 1;
                let answer = serve(owner, Command::Retrieve { data: data.clone() });
                match node.waiting.on_incoming(answer) {
                    Ok(Action::Reply { reply: _, payload }) => match decode_frame(&payload) {
                        Decoded::Frame { payload, .. } => {
                            u64::from_be_bytes(payload.try_into().unwrap())
                        }
                        _ => panic!("a bad frame"),
                    },
                    _ => panic!("expected the answer"),
                }
            }
        }
    }
}

/// A node runs an incoming call and stores its result.
fn run_call(node: &mut SimNode, cmd: Command<Add>, owners: &mut [&mut SimNode]) {
    match node.waiting.on_incoming(cmd) {
        Ok(Action::RunTask { id, call }) => {
            node.store.put(id, ()).unwrap();
            let Add(a, b) = call;
            let x = fetch(node, a, owners);
            let y = fetch(node, b, owners);
            assert!(node.store.complete(id, x + y));
        }
        _ => panic!("expected a call"),
    }
}

fn spawn(on: u32, id: u128, call: Add, node: &mut SimNode, owners: &mut [&mut SimNode]) -> DFut {
    run_call(node, Command::Call { id, call }, owners);
    DFut::new(on, id)
}

#[test]
fn two_node_add_chain() {
    let mut n0 = SimNode::new(0);
    let mut n1 = SimNode::new(1);
    // add(2, 3) on node 1, then add(2, <that future>) on node 0
    let first = spawn(1, 11, Add(MaybeFut::from(2), MaybeFut::from(3)), &mut n1, &mut []);
    let second = spawn(
        0,
        12,
        Add(MaybeFut::from(2), MaybeFut::from_fut(first)),
        &mut n0,
        &mut [&mut n1],
    );
    let result = fetch(&mut n0, MaybeFut::from_fut(second), &mut []);
    assert_eq!(result, 7);
    // both slots were reclaimed once their one reference was consumed
    assert!(!n0.store.complete(12, 0));
    assert!(!n1.store.complete(11, 0));
}

#[test]
fn chaining_without_materialisation() {
    let mut n0 = SimNode::new(0);
    let mut x = SimNode::new(1);
    let mut y = SimNode::new(2);
    let mut z = SimNode::new(3);
    let a = spawn(1, 21, Add(MaybeFut::from(1), MaybeFut::from(2)), &mut x, &mut []);
    let b = spawn(2, 22, Add(MaybeFut::from(3), MaybeFut::from(4)), &mut y, &mut []);
    let c = spawn(
        3,
        23,
        Add(MaybeFut::from_fut(a), MaybeFut::from_fut(b)),
        &mut z,
        &mut [&mut x, &mut y],
    );
    assert_eq!(n0.retrieves_sent, 0);
    assert_eq!(z.retrieves_sent, 2);
    let result = fetch(&mut n0, MaybeFut::from_fut(c), &mut [&mut z]);
    assert_eq!(result, 10);
    assert_eq!(n0.retrieves_sent, 1);
}

#[test]
fn cloned_reference_keeps_slot_until_last_consumer() {
    let mut n1 = SimNode::new(1);
    let mut a = spawn(1, 31, Add(MaybeFut::from(20), MaybeFut::from(22)), &mut n1, &mut []);
    let a2 = a.fork();
    let d1: DFutData = a.into_data();
    let d2: DFutData = a2.into_data();
    assert!(matches!(n1.store.get(&d1, ()), Ok(PendingValue::Value(42))));
    // the clone still names the slot
    assert!(matches!(n1.store.get(&d2, ()), Ok(PendingValue::Value(42))));
    assert!(!n1.store.complete(31, 0));
}
