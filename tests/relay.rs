use clip_relay::{
    group_lines, join_range, recovered_lines, recovery_batches, split_lines, Action, App,
    DeliveryError, DeliveryLoop, LoopState, Packet, Polled, BATCH_SIZE, QUEUE_CAPACITY,
};

fn strings(v: &[&str]) -> Vec<String> {
    v.iter().map(|s| s.to_string()).collect()
}

fn app(n: usize) -> App {
    App::new("relay".to_string(), (0..n).map(|i| format!("chan{}", i)).collect())
}

#[test]
fn new_app_has_title_and_empty_state() {
    let a = app(3);
    assert_eq!(a.window_name(), "relay control");
    assert_eq!(a.channel_count(), 3);
    assert_eq!(a.channel_name(1), "chan1");
    assert!(a.pending_lines(0).is_empty());
    assert!(a.ledger_lines().is_empty());
}

#[test]
fn ingest_twice_keeps_first_occurrence_only() {
    let mut a = app(1);
    let first = a.ingest(0, &strings(&["a", "b"]));
    let second = a.ingest(0, &strings(&["a", "b"]));
    assert!(first.is_empty());
    assert!(second.is_empty());
    assert_eq!(a.pending_lines(0), &strings(&["a", "b"]));
    assert_eq!(a.ledger_lines(), &strings(&["a", "b"]));
}

#[test]
fn dedup_spans_destinations_and_discards_empty_lines() {
    let mut a = app(2);
    a.ingest(0, &strings(&["x", "", "y", "x"]));
    a.ingest(1, &strings(&["y", "z", ""]));
    assert_eq!(a.pending_lines(0), &strings(&["x", "y"]));
    assert_eq!(a.pending_lines(1), &strings(&["z"]));
    assert_eq!(a.ledger_lines(), &strings(&["x", "y", "z"]));
}

#[test]
fn twelve_lines_give_two_batches() {
    let mut a = app(1);
    let lines: Vec<String> = (1..=12).map(|i| format!("l{}", i)).collect();
    let out = a.ingest(0, &lines);
    assert_eq!(
        out,
        vec![
            Packet::Send("l1\nl2\nl3\nl4\nl5".to_string(), 0),
            Packet::Send("l6\nl7\nl8\nl9\nl10".to_string(), 0),
        ]
    );
    assert_eq!(a.pending_lines(0), &strings(&["l11", "l12"]));
}

#[test]
fn batches_complete_across_calls() {
    let mut a = app(2);
    assert!(a.ingest(1, &strings(&["a", "b", "c"])).is_empty());
    let out = a.ingest(1, &strings(&["d", "e", "f"]));
    assert_eq!(out, vec![Packet::Send("a\nb\nc\nd\ne".to_string(), 1)]);
    assert_eq!(a.pending_lines(1), &strings(&["f"]));
    assert!(a.pending_lines(0).is_empty());
}

#[test]
fn paste_splits_on_newlines() {
    let mut a = app(1);
    let out = a.paste(0, "one\n\ntwo\nthree\nfour\nfive\nsix");
    assert_eq!(out, vec![Packet::Send("one\ntwo\nthree\nfour\nfive".to_string(), 0)]);
    assert_eq!(a.pending_lines(0), &strings(&["six"]));
}

#[test]
fn try_send_sends_full_batches_of_all_destinations() {
    let mut a = app(2);
    a.ingest(0, &strings(&["a", "b"]));
    a.ingest(1, &strings(&["c"]));
    assert!(a.try_send().is_empty());
    assert_eq!(a.pending_lines(0), &strings(&["a", "b"]));
    assert_eq!(a.pending_lines(1), &strings(&["c"]));
}

#[test]
fn flush_joins_every_pending_set() {
    let mut a = app(2);
    a.ingest(0, &strings(&["a", "b", "c"]));
    let quit = a.flush();
    assert_eq!(quit, Packet::SendAndQuit(vec!["a\nb\nc".to_string(), String::new()]));
    assert!(a.pending_lines(0).is_empty());
    assert_eq!(a.ledger_lines(), &strings(&["a", "b", "c"]));
}

#[test]
fn flush_without_destinations() {
    let mut a = app(0);
    assert_eq!(a.flush(), Packet::SendAndQuit(vec![]));
}

#[test]
fn split_lines_keeps_empty_pieces() {
    assert_eq!(split_lines("a\n\nb"), strings(&["a", "", "b"]));
    assert_eq!(split_lines(""), strings(&[""]));
    assert_eq!(split_lines("x\n"), strings(&["x", ""]));
    assert_eq!(split_lines("é\nü"), strings(&["é", "ü"]));
}

#[test]
fn join_range_joins_with_newlines() {
    let v = strings(&["a", "b", "c", "d"]);
    assert_eq!(join_range(&v, 1, 3), "b\nc");
    assert_eq!(join_range(&v, 2, 2), "");
    assert_eq!(join_range(&v, 0, 1), "a");
}

#[test]
fn group_lines_keeps_short_tail() {
    let v: Vec<String> = (1..=7).map(|i| i.to_string()).collect();
    assert_eq!(group_lines(&v), strings(&["1\n2\n3\n4\n5", "6\n7"]));
    assert_eq!(group_lines(&Vec::new()), Vec::<String>::new());
    assert_eq!(BATCH_SIZE, 5);
}

#[test]
fn recovery_of_backlog() {
    let msgs = strings(&["p\nq", "r"]);
    assert_eq!(recovered_lines(&msgs), strings(&["p", "q", "r"]));
    assert_eq!(recovery_batches(&msgs), strings(&["p\nq\nr"]));
    assert!(recovery_batches(&Vec::new()).is_empty());
}

#[test]
fn recovery_drops_empty_lines_and_regroups() {
    let msgs = strings(&["a\n\nb\nc", "", "d\ne\nf\n"]);
    assert_eq!(recovery_batches(&msgs), strings(&["a\nb\nc\nd\ne", "f"]));
}

fn targets() -> Vec<(u64, Option<u64>)> {
    vec![(10, None), (20, Some(30))]
}

#[test]
fn delivery_ready_latch_fires_once() {
    let mut d = DeliveryLoop::new(targets());
    assert_eq!(d.state(), LoopState::Idle);
    assert_eq!(d.poll(Polled::Empty), Ok(vec![]));
    assert!(d.ready());
    assert!(!d.ready());
    assert_eq!(d.state(), LoopState::Polling);
    assert_eq!(d.targets_vec(), &targets());
}

#[test]
fn delivery_fifo_through_queue() {
    let (tx, mut rx) = tokio::sync::mpsc::channel::<Packet>(QUEUE_CAPACITY);
    tx.try_send(Packet::Send("x".to_string(), 0)).unwrap();
    tx.try_send(Packet::Send("y".to_string(), 1)).unwrap();
    tx.try_send(Packet::SendAndQuit(vec![String::new(), "z".to_string()])).unwrap();
    let mut d = DeliveryLoop::new(targets());
    d.ready();
    let mut actions = vec![];
    while d.state() == LoopState::Polling {
        let polled = match rx.try_recv() {
            Ok(p) => Polled::Received(p),
            Err(tokio::sync::mpsc::error::TryRecvError::Empty) => Polled::Empty,
            Err(tokio::sync::mpsc::error::TryRecvError::Disconnected) => Polled::Closed,
        };
        actions.extend(d.poll(polled).unwrap());
    }
    assert_eq!(
        actions,
        vec![
            Action::Dispatch(10, "x".to_string()),
            Action::Dispatch(20, "y".to_string()),
            Action::Dispatch(20, "z".to_string()),
            Action::Terminate,
        ]
    );
    assert_eq!(d.state(), LoopState::Draining);
    assert!(d.finish());
    assert_eq!(d.state(), LoopState::Stopped);
    assert_eq!(d.poll(Polled::Closed), Ok(vec![]));
}

#[test]
fn delivery_closed_queue_terminates() {
    let mut d = DeliveryLoop::new(targets());
    d.ready();
    assert_eq!(d.poll(Polled::Closed), Ok(vec![Action::Terminate]));
    assert_eq!(d.state(), LoopState::Draining);
}

#[test]
fn delivery_unknown_destination() {
    let mut d = DeliveryLoop::new(targets());
    d.ready();
    assert_eq!(
        d.poll(Polled::Received(Packet::Send("x".to_string(), 2))),
        Err(DeliveryError::UnknownDestination(2))
    );
    let quit = Packet::SendAndQuit(strings(&["a", "", "", "b", "c"]));
    assert_eq!(d.poll(Polled::Received(quit)), Err(DeliveryError::UnknownDestination(3)));
    assert_eq!(d.state(), LoopState::Polling);
    let quit = Packet::SendAndQuit(strings(&["a", "", ""]));
    assert_eq!(
        d.poll(Polled::Received(quit)),
        Ok(vec![Action::Dispatch(10, "a".to_string()), Action::Terminate])
    );
}

#[test]
fn queue_blocks_past_capacity() {
    let (tx, mut rx) = tokio::sync::mpsc::channel::<Packet>(QUEUE_CAPACITY);
    for i in 0..QUEUE_CAPACITY {
        tx.try_send(Packet::Send(i.to_string(), 0)).unwrap();
    }
    assert!(matches!(
        tx.try_send(Packet::Send("extra".to_string(), 0)),
        Err(tokio::sync::mpsc::error::TrySendError::Full(_))
    ));
    assert_eq!(rx.try_recv().unwrap(), Packet::Send("0".to_string(), 0));
    assert!(tx.try_send(Packet::Send("extra".to_string(), 0)).is_ok());
}
