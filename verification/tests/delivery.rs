//! Behavior of the subscription registry, the pending-pong queue,
//! and the read-loop step function, observed through real channels.

use crossbeam_channel::unbounded;
use nats_proto::buffer::ReadBuffer;
use nats_proto::decode::MsgArgs;
use nats_proto::decode::ProtoError;
use nats_proto::dispatch::Message;
use nats_proto::dispatch::PongQueue;
use nats_proto::dispatch::StepOutcome;
use nats_proto::dispatch::SubscriptionRegistry;
use nats_proto::dispatch::build_message;
use nats_proto::dispatch::expect_info;
use nats_proto::dispatch::pong_frame;
use nats_proto::dispatch::read_loop_step;

#[test]
fn registry_insert_contains_remove() {
    let mut subs: SubscriptionRegistry<i32> = SubscriptionRegistry::new();
    let (tx, _rx) = unbounded::<Message<i32>>();
    assert!(!subs.contains(7));
    subs.insert(7, tx);
    assert!(subs.contains(7));
    subs.remove(7);
    assert!(!subs.contains(7));
}

#[test]
fn deliver_reaches_the_channel() {
    let mut subs: SubscriptionRegistry<i32> = SubscriptionRegistry::new();
    let (tx, rx) = unbounded::<Message<i32>>();
    subs.insert(1, tx);
    let args = MsgArgs {
        subject: b"subj".to_vec(),
        reply: None,
        mlen: 5,
        sid: 1,
    };
    let msg = build_message(args, b"world".to_vec(), 7);
    assert!(subs.deliver(1, msg));
    let got = rx.try_recv().expect("message delivered");
    assert_eq!(got.subject, b"subj".to_vec());
    assert_eq!(got.data, b"world".to_vec());
    assert!(got.reply.is_none());
    assert!(got.writer.is_none());
}

#[test]
fn deliver_to_missing_id_is_discarded() {
    let subs: SubscriptionRegistry<i32> = SubscriptionRegistry::new();
    let args = MsgArgs {
        subject: b"s".to_vec(),
        reply: None,
        mlen: 1,
        sid: 9,
    };
    let msg = build_message(args, b"x".to_vec(), 0);
    assert!(!subs.deliver(9, msg));
}

#[test]
fn reply_subject_attaches_writer() {
    let args = MsgArgs {
        subject: b"s".to_vec(),
        reply: Some(b"reply.to".to_vec()),
        mlen: 2,
        sid: 3,
    };
    let msg = build_message(args, b"ab".to_vec(), 42);
    assert_eq!(msg.reply, Some(b"reply.to".to_vec()));
    assert_eq!(msg.writer, Some(42));
}

#[test]
fn pong_queue_resolves_in_probe_order() {
    let mut q = PongQueue::new();
    let (ta, ra) = unbounded::<bool>();
    let (tb, rb) = unbounded::<bool>();
    let (tc, rc) = unbounded::<bool>();
    q.enqueue(ta);
    q.enqueue(tb);
    q.enqueue(tc);
    assert_eq!(q.len(), 3);

    let first = q.dequeue_oldest().unwrap();
    first.send(true).unwrap();
    assert!(ra.try_recv().is_ok());
    assert!(rb.try_recv().is_err());
    assert!(rc.try_recv().is_err());

    let second = q.dequeue_oldest().unwrap();
    second.send(true).unwrap();
    assert!(rb.try_recv().is_ok());
    assert!(rc.try_recv().is_err());

    let third = q.dequeue_oldest().unwrap();
    third.send(true).unwrap();
    assert!(rc.try_recv().is_ok());
    assert_eq!(q.len(), 0);
    assert!(q.dequeue_oldest().is_none());
}

#[test]
fn pong_with_empty_queue_is_noop() {
    let mut q = PongQueue::new();
    assert!(!q.process_pong());
    assert_eq!(q.len(), 0);
}

#[test]
fn step_acknowledgements_match_fifo_despite_traffic() {
    let mut buf = ReadBuffer::new();
    let mut pending: Option<MsgArgs> = None;
    let subs: SubscriptionRegistry<i32> = SubscriptionRegistry::new();
    let mut pongs = PongQueue::new();
    let (ta, ra) = unbounded::<bool>();
    let (tb, rb) = unbounded::<bool>();
    pongs.enqueue(ta);
    pongs.enqueue(tb);

    // an acknowledgement, unrelated message traffic, an acknowledgement
    buf.feed(b"PONG\r\nMSG x 9 2\r\nab\r\nPONG\r\n");

    assert!(matches!(
        read_loop_step(&mut buf, &mut pending, &mut pongs, 0i32),
        Ok(StepOutcome::PongMatched)
    ));
    assert!(ra.try_recv().unwrap());
    assert!(rb.try_recv().is_err());

    assert!(matches!(
        read_loop_step(&mut buf, &mut pending, &mut pongs, 0i32),
        Ok(StepOutcome::HeaderParsed)
    ));
    match read_loop_step(&mut buf, &mut pending, &mut pongs, 0i32) {
        Ok(StepOutcome::Deliver { sid, msg }) => {
            // the unregistered frame is discarded silently
            assert!(!subs.deliver(sid, msg));
        },
        _ => panic!("expected a frame handed out for delivery"),
    }
    assert!(rb.try_recv().is_err());

    assert!(matches!(
        read_loop_step(&mut buf, &mut pending, &mut pongs, 0i32),
        Ok(StepOutcome::PongMatched)
    ));
    assert!(rb.try_recv().unwrap());
    assert_eq!(pongs.len(), 0);
}

#[test]
fn step_pong_with_nothing_pending_continues() {
    let mut buf = ReadBuffer::new();
    let mut pending: Option<MsgArgs> = None;
    let mut pongs = PongQueue::new();
    buf.feed(b"PONG\r\nPING\r\n");
    assert!(matches!(
        read_loop_step(&mut buf, &mut pending, &mut pongs, 0i32),
        Ok(StepOutcome::PongUnmatched)
    ));
    // the loop goes on: the next line still parses
    assert!(matches!(
        read_loop_step(&mut buf, &mut pending, &mut pongs, 0i32),
        Ok(StepOutcome::SendPong)
    ));
}

#[test]
fn removed_subscription_discards_frame_without_corruption() {
    let mut buf = ReadBuffer::new();
    let mut pending: Option<MsgArgs> = None;
    let mut subs: SubscriptionRegistry<i32> = SubscriptionRegistry::new();
    let mut pongs = PongQueue::new();
    let (tx, rx) = unbounded::<Message<i32>>();
    subs.insert(7, tx);
    subs.remove(7);

    buf.feed(b"MSG foo 7 5\r\nhello\r\nPING\r\n");
    assert!(matches!(
        read_loop_step(&mut buf, &mut pending, &mut pongs, 0i32),
        Ok(StepOutcome::HeaderParsed)
    ));
    match read_loop_step(&mut buf, &mut pending, &mut pongs, 0i32) {
        Ok(StepOutcome::Deliver { sid, msg }) => {
            assert_eq!(sid, 7);
            assert!(!subs.deliver(sid, msg));
        },
        _ => panic!("expected a frame handed out for delivery"),
    }
    assert!(rx.try_recv().is_err());
    // the next control line parses normally
    assert!(matches!(
        read_loop_step(&mut buf, &mut pending, &mut pongs, 0i32),
        Ok(StepOutcome::SendPong)
    ));
    assert_eq!(buf.remaining(), 0);
}

#[test]
fn step_delivers_full_frame_with_reply_writer() {
    let mut buf = ReadBuffer::new();
    let mut pending: Option<MsgArgs> = None;
    let mut subs: SubscriptionRegistry<i32> = SubscriptionRegistry::new();
    let mut pongs = PongQueue::new();
    let (tx, rx) = unbounded::<Message<i32>>();
    subs.insert(1, tx);

    buf.feed(b"MSG subj 1 reply.to 5\r\nworld\r\n");
    assert!(matches!(
        read_loop_step(&mut buf, &mut pending, &mut pongs, 11i32),
        Ok(StepOutcome::HeaderParsed)
    ));
    match read_loop_step(&mut buf, &mut pending, &mut pongs, 11i32) {
        Ok(StepOutcome::Deliver { sid, msg }) => {
            assert_eq!(sid, 1);
            assert!(subs.deliver(sid, msg));
        },
        _ => panic!("expected a frame handed out for delivery"),
    }
    let got = rx.try_recv().expect("message delivered");
    assert_eq!(got.subject, b"subj".to_vec());
    assert_eq!(got.reply, Some(b"reply.to".to_vec()));
    assert_eq!(got.data, b"world".to_vec());
    assert_eq!(got.writer, Some(11));
    assert!(pending.is_none());
}

#[test]
fn step_waits_for_partial_payload() {
    let mut buf = ReadBuffer::new();
    let mut pending: Option<MsgArgs> = None;
    let mut subs: SubscriptionRegistry<i32> = SubscriptionRegistry::new();
    let mut pongs = PongQueue::new();
    let (tx, rx) = unbounded::<Message<i32>>();
    subs.insert(2, tx);

    buf.feed(b"MSG a 2 6\r\nhel");
    assert!(matches!(
        read_loop_step(&mut buf, &mut pending, &mut pongs, 0i32),
        Ok(StepOutcome::HeaderParsed)
    ));
    assert!(matches!(
        read_loop_step(&mut buf, &mut pending, &mut pongs, 0i32),
        Ok(StepOutcome::NeedMoreInput)
    ));
    buf.feed(b"lo!\r\n");
    match read_loop_step(&mut buf, &mut pending, &mut pongs, 0i32) {
        Ok(StepOutcome::Deliver { sid, msg }) => {
            assert!(subs.deliver(sid, msg));
        },
        _ => panic!("expected a frame handed out for delivery"),
    }
    assert_eq!(rx.try_recv().unwrap().data, b"hello!".to_vec());
}

#[test]
fn step_surfaces_handshake_report_and_unknown() {
    let mut buf = ReadBuffer::new();
    let mut pending: Option<MsgArgs> = None;
    let mut pongs = PongQueue::new();
    buf.feed(b"INFO {\"a\":1}\r\n-ERR 'boom'\r\n+OK\r\n");
    match read_loop_step(&mut buf, &mut pending, &mut pongs, 0i32) {
        Ok(StepOutcome::Handshake(v)) => {
            assert_eq!(v.get("a").and_then(|x| x.as_u64()), Some(1));
        },
        _ => panic!("expected the handshake record"),
    }
    match read_loop_step(&mut buf, &mut pending, &mut pongs, 0i32) {
        Ok(StepOutcome::ServerReport(d)) => assert_eq!(d, b"boom".to_vec()),
        _ => panic!("expected a server report"),
    }
    match read_loop_step(&mut buf, &mut pending, &mut pongs, 0i32) {
        Ok(StepOutcome::UnknownOp(u)) => assert_eq!(u, b"+OK".to_vec()),
        _ => panic!("expected an unknown operation"),
    }
}

#[test]
fn step_malformed_line_is_fatal() {
    let mut buf = ReadBuffer::new();
    let mut pending: Option<MsgArgs> = None;
    let mut pongs = PongQueue::new();
    buf.feed(b"\x01garbage\r\n");
    assert!(matches!(
        read_loop_step(&mut buf, &mut pending, &mut pongs, 0i32),
        Err(ProtoError::Malformed)
    ));
}

#[test]
fn pong_frame_is_the_wire_acknowledgement() {
    assert_eq!(pong_frame(), b"PONG\r\n".to_vec());
}

#[test]
fn expect_info_accepts_only_a_handshake_first() {
    let mut buf = ReadBuffer::new();
    buf.feed(b"INFO {\"server_id\":\"x\"}");
    assert!(matches!(expect_info(&mut buf), Ok(None)));
    buf.feed(b"\r\n");
    match expect_info(&mut buf) {
        Ok(Some(v)) => assert_eq!(v.get("server_id").and_then(|s| s.as_str()), Some("x")),
        _ => panic!("expected the handshake record"),
    }

    // a complete first frame of another operation is consumed and
    // refused with the distinct not-a-handshake error
    let mut other = ReadBuffer::new();
    other.feed(b"PING\r\n");
    assert!(matches!(expect_info(&mut other), Err(ProtoError::NotInfo)));
    assert_eq!(other.remaining(), 0);

    // a first line that cannot be decoded at all is a parse error
    // and consumes nothing
    let mut bad = ReadBuffer::new();
    bad.feed(b"MSG foo nonsense 3\r\n");
    let before = bad.remaining();
    assert!(matches!(expect_info(&mut bad), Err(ProtoError::Malformed)));
    assert_eq!(bad.remaining(), before);
}
