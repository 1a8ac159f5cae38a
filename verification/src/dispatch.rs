//! Delivery and keepalive: the subscription registry that routes a
//! decoded message frame to its consumer channel, the queue of
//! pending keepalive acknowledgements, and the step function that the
//! read loop repeats for as long as the connection lives.

use vstd::prelude::*;
use std::collections::HashMap;
use std::collections::VecDeque;
use crossbeam_channel::Sender;
use crate::buffer::ReadBuffer;
use crate::decode::ControlOp;
use crate::decode::MsgArgs;
use crate::decode::ProtoError;
use crate::grammar::LineShape;
use crate::grammar::line_shape;

verus! {

broadcast use vstd::std_specs::hash::group_hash_axioms;

#[verifier::external_type_specification]
#[verifier::external_body]
#[verifier::reject_recursive_types(T)]
pub struct ExSender<T>(Sender<T>);

/// Relies on crossbeam_channel::Sender::send: it hands `v` to the
/// channel, blocking while a bounded channel is full, and fails only
/// when every receiver is gone.  Nothing can be promised about the
/// outcome, which depends on the receiving side.
#[verifier::external_body]
fn channel_send<T>(tx: &Sender<T>, v: T) -> (ok: bool) {
    tx.send(v).is_ok()
}

/// A message ready for delivery to a subscriber: the frame's subject
/// and optional reply-subject, the payload bytes, and — exactly when
/// a reply-subject was present — a handle to the connection's shared
/// outbound writer, so that replying needs no other state.
pub struct Message<W> {
    pub subject: Vec<u8>,
    pub reply: Option<Vec<u8>>,
    pub data: Vec<u8>,
    pub writer: Option<W>,
}

/// Builds the deliverable message for a decoded header and its
/// payload bytes; the writer handle is attached if and only if the
/// header carried a reply-subject.
pub fn build_message<W>(args: MsgArgs, payload: Vec<u8>, writer: W) -> (m: Message<W>)
    ensures
        m.subject == args.subject,
        m.reply == args.reply,
        m.data == payload,
        m.writer is Some <==> args.reply is Some,
{
    let has_reply = args.reply.is_some();
    let mut m = Message { subject: args.subject, reply: args.reply, data: payload, writer: None };
    if has_reply {
        m.writer = Some(writer);
    }
    m
}

/// The registry mapping each live subscription id to the sending end
/// of that subscription's delivery channel.  The read loop only looks
/// ids up; subscribe and unsubscribe operations outside this core
/// insert and remove them.
#[verifier::reject_recursive_types(W)]
pub struct SubscriptionRegistry<W> {
    map: HashMap<usize, Sender<Message<W>>>,
}

impl<W> View for SubscriptionRegistry<W> {
    type V = Map<usize, Sender<Message<W>>>;

    closed spec fn view(&self) -> Map<usize, Sender<Message<W>>> {
        self.map@
    }
}

impl<W> SubscriptionRegistry<W> {
    /// A registry with no subscriptions.
    pub fn new() -> (r: Self)
        ensures
            r@ == Map::<usize, Sender<Message<W>>>::empty(),
    {
        SubscriptionRegistry { map: HashMap::new() }
    }

    /// Registers the delivery channel for a subscription id.
    pub fn insert(&mut self, sid: usize, tx: Sender<Message<W>>)
        ensures
            final(self)@ == old(self)@.insert(sid, tx),
    {
        let _ = self.map.insert(sid, tx);
    }

    /// Removes a subscription id; a later frame for it will be
    /// discarded.
    pub fn remove(&mut self, sid: usize)
        ensures
            final(self)@ == old(self)@.remove(sid),
    {
        let _ = self.map.remove(&sid);
    }

    /// Whether a subscription id is registered.
    pub fn contains(&self, sid: usize) -> (r: bool)
        ensures
            r == self@.contains_key(sid),
    {
        self.map.contains_key(&sid)
    }

    /// Hands a message to the channel of the given subscription id;
    /// a lookup miss is no error — the message is silently dropped
    /// and the registry is untouched.  Returns whether the id was
    /// registered.
    pub fn deliver(&self, sid: usize, msg: Message<W>) -> (r: bool)
        ensures
            r == self@.contains_key(sid),
    {
        match self.map.get(&sid) {
            Some(tx) => {
                let _ = channel_send(tx, msg);
                true
            },
            None => false,
        }
    }
}

/// The ordered collection of keepalive waiters: one sender per probe
/// issued, appended at the back, fulfilled strictly from the front.
pub struct PongQueue {
    waiters: VecDeque<Sender<bool>>,
}

impl View for PongQueue {
    type V = Seq<Sender<bool>>;

    closed spec fn view(&self) -> Seq<Sender<bool>> {
        self.waiters@
    }
}

impl PongQueue {
    /// A queue with no pending probes.
    pub fn new() -> (q: PongQueue)
        ensures
            q@ == Seq::<Sender<bool>>::empty(),
    {
        PongQueue { waiters: VecDeque::new() }
    }

    /// How many probes still await an acknowledgement.
    pub fn len(&self) -> (n: usize)
        ensures
            n == self@.len(),
    {
        self.waiters.len()
    }

    /// Appends the waiter of a freshly issued probe at the back.
    pub fn enqueue(&mut self, tx: Sender<bool>)
        ensures
            final(self)@ == old(self)@.push(tx),
    {
        self.waiters.push_back(tx);
    }

    /// Removes and returns the oldest waiter, if any.
    pub fn dequeue_oldest(&mut self) -> (r: Option<Sender<bool>>)
        ensures
            old(self)@.len() == 0 ==> r is None && final(self)@ == old(self)@,
            old(self)@.len() > 0 ==> (r matches Some(tx) && tx == old(self)@[0]) && final(self)@
                == old(self)@.skip(1),
    {
        let r = self.waiters.pop_front();
        proof {
            if old(self)@.len() > 0 {
                assert(self@ =~= old(self)@.skip(1));
            }
        }
        r
    }

    /// Fulfills the oldest pending probe on an acknowledgement frame.
    /// An acknowledgement with nothing pending is a no-op, never an
    /// error, and leaves the queue as it was.  Returns whether a
    /// waiter was fulfilled.
    pub fn process_pong(&mut self) -> (r: bool)
        ensures
            old(self)@.len() == 0 ==> r == false && final(self)@ == old(self)@,
            old(self)@.len() > 0 ==> r == true && final(self)@ == old(self)@.skip(1),
    {
        match self.dequeue_oldest() {
            Some(tx) => {
                let _ = channel_send(&tx, true);
                true
            },
            None => false,
        }
    }
}

/// Acknowledgements resolve waiters strictly in the order their
/// probes were issued: after waiters `a`, `b`, `c` join an empty
/// queue in that order, the first dequeue yields `a`, the second
/// `b`, the third `c`, and the queue is then empty — however many
/// unrelated operations run in between, since only an
/// acknowledgement changes the queue.
pub proof fn lemma_acks_resolve_in_probe_order<T>(a: T, b: T, c: T)
    ensures
        ({
            let q = Seq::<T>::empty().push(a).push(b).push(c);
            &&& q.len() == 3
            &&& q[0] == a
            &&& q.skip(1)[0] == b
            &&& q.skip(1).skip(1)[0] == c
            &&& q.skip(1).skip(1).skip(1).len() == 0
        }),
{
    let q = Seq::<T>::empty().push(a).push(b).push(c);
    assert(q.skip(1) =~= seq![b, c]);
    assert(q.skip(1).skip(1) =~= seq![c]);
    assert(q.skip(1).skip(1).skip(1) =~= Seq::<T>::empty());
}

/// What one turn of the read loop did, and what the caller owning
/// the connection must now do.  The step itself never blocks: it
/// computes on the buffer and the queue, so the caller may hold the
/// queue's lock around it, while delivery — the one action that can
/// block on subscriber backpressure — is handed back to be performed
/// under the registry's own lock alone.
pub enum StepOutcome<W> {
    /// No complete line or payload is buffered: read more bytes from
    /// the connection and feed them in.
    NeedMoreInput,
    /// A message-frame header was decoded; its payload is consumed
    /// on the following turns.
    HeaderParsed,
    /// A probe arrived: write an acknowledgement frame back to the
    /// connection and flush it.
    SendPong,
    /// A message frame is complete: hand it to the channel of the
    /// given subscription id, discarding it silently on a lookup
    /// miss.
    Deliver { sid: usize, msg: Message<W> },
    /// An acknowledgement fulfilled the oldest pending probe.
    PongMatched,
    /// An acknowledgement arrived with no probe pending.
    PongUnmatched,
    /// The server's handshake record.
    Handshake(serde_json::Value),
    /// A server-reported error; the loop continues.
    ServerReport(Vec<u8>),
    /// An operation outside the fixed vocabulary, with its raw name.
    UnknownOp(Vec<u8>),
}

/// What holds of the pending message frame after one turn: while the
/// declared payload has not fully arrived everything stays as it
/// was; once it has, exactly the payload and its terminator are
/// retired from the buffer, the header is retired from `pending`,
/// and the frame handed out for delivery carries the header's
/// subject, reply-subject and subscription id, exactly the declared
/// payload bytes, and a writer handle if and only if a reply-subject
/// was present.
pub open spec fn step_msg_post<W>(
    args: MsgArgs,
    pre: Seq<u8>,
    post: Seq<u8>,
    pending: Option<MsgArgs>,
    r: Result<StepOutcome<W>, ProtoError>,
) -> bool {
    if pre.len() >= args.mlen + 2 {
        &&& post == pre.skip(args.mlen + 2)
        &&& pending is None
        &&& (r matches Ok(StepOutcome::Deliver { sid, msg }) && sid == args.sid && msg.subject
            == args.subject && msg.reply == args.reply && msg.data@ == pre.take(args.mlen as int)
            && (msg.writer is Some <==> args.reply is Some))
    } else {
        &&& post == pre
        &&& pending == Some(args)
        &&& r matches Ok(StepOutcome::NeedMoreInput)
    }
}

/// One turn of the dispatch/keepalive driver.  With a header pending
/// it works on that frame's payload; otherwise it parses one control
/// line and branches on the operation: a probe asks the caller to
/// acknowledge, an acknowledgement fulfills the oldest pending
/// probe (or nothing), a complete message frame is handed out for
/// delivery under the registry's lock, handshake, server error and
/// unknown operations are surfaced, and a malformed or undecodable
/// line is fatal.  Only an acknowledgement ever changes the pong
/// queue, so interleaved message traffic cannot disturb the
/// keepalive order.
pub fn read_loop_step<W>(
    buf: &mut ReadBuffer,
    pending: &mut Option<MsgArgs>,
    pongs: &mut PongQueue,
    writer: W,
) -> (r: Result<StepOutcome<W>, ProtoError>)
    requires
        old(buf).wf(),
    ensures
        final(buf).wf(),
        // the pong queue moves only on an acknowledgement, strictly from the front
        (r matches Ok(StepOutcome::PongMatched)) ==> old(pongs)@.len() > 0 && final(pongs)@ == old(
            pongs,
        )@.skip(1),
        !(r matches Ok(StepOutcome::PongMatched)) ==> final(pongs)@ == old(pongs)@,
        (r matches Ok(StepOutcome::PongUnmatched)) ==> old(pongs)@.len() == 0,
        // a pending frame is finished before any new line is parsed
        *old(pending) matches Some(args) ==> step_msg_post(
            args,
            old(buf)@,
            final(buf)@,
            *final(pending),
            r,
        ),
        // with nothing pending, one control line is parsed
        (*old(pending)) is None && line_shape(old(buf)@) is Incomplete ==> (r matches Ok(
            StepOutcome::NeedMoreInput,
        )) && final(buf)@ == old(buf)@ && (*final(pending)) is None,
        (*old(pending)) is None && line_shape(old(buf)@) is Malformed ==> (r matches Err(e) && e
            == ProtoError::Malformed) && final(buf)@ == old(buf)@ && (*final(pending)) is None,
        (*old(pending)) is None ==> (line_shape(old(buf)@) matches LineShape::Line {
            op_end,
            args_start,
            args_end,
            end,
        } ==> step_line_post(
            old(buf)@,
            final(buf)@,
            *final(pending),
            r,
            op_end,
            args_start,
            args_end,
            end,
        )),
{
    match pending.take() {
        Some(args) => {
            match buf.take_payload(args.mlen) {
                None => {
                    *pending = Some(args);
                    Ok(StepOutcome::NeedMoreInput)
                },
                Some(payload) => {
                    let sid = args.sid;
                    let msg = build_message(args, payload, writer);
                    Ok(StepOutcome::Deliver { sid, msg })
                },
            }
        },
        None => {
            match buf.parse_control_op() {
                Err(e) => Err(e),
                Ok(None) => Ok(StepOutcome::NeedMoreInput),
                Ok(Some(op)) => match op {
                    ControlOp::Msg(args) => {
                        *pending = Some(args);
                        Ok(StepOutcome::HeaderParsed)
                    },
                    ControlOp::Ping => Ok(StepOutcome::SendPong),
                    ControlOp::Pong => {
                        if pongs.process_pong() {
                            Ok(StepOutcome::PongMatched)
                        } else {
                            Ok(StepOutcome::PongUnmatched)
                        }
                    },
                    ControlOp::Info(v) => Ok(StepOutcome::Handshake(v)),
                    ControlOp::ServerError(d) => Ok(StepOutcome::ServerReport(d)),
                    ControlOp::Unknown(u) => Ok(StepOutcome::UnknownOp(u)),
                },
            }
        },
    }
}

/// What holds after the turn that parses a complete control line:
/// the line's bytes are retired exactly as `parse_line_post` says of
/// the underlying parse, a message header becomes the pending frame,
/// a probe asks for an acknowledgement, an acknowledgement never
/// fails, and handshake, server error and unknown operations are
/// surfaced with their decoded content.
pub open spec fn step_line_post<W>(
    pre: Seq<u8>,
    post: Seq<u8>,
    pending: Option<MsgArgs>,
    r: Result<StepOutcome<W>, ProtoError>,
    op_end: int,
    args_start: int,
    args_end: int,
    end: int,
) -> bool {
    let op = pre.subrange(0, op_end);
    let args = pre.subrange(args_start, args_end);
    &&& (op == crate::decode::op_msg() ==> match crate::decode::decode_msg_args(args) {
        Some(m) => (r matches Ok(StepOutcome::HeaderParsed)) && post == pre.skip(end) && (
        pending matches Some(a) && a@ == m),
        None => (r matches Err(e) && e == ProtoError::Malformed) && post == pre && pending
            is None,
    })
    &&& (op == crate::decode::op_ping() ==> (r matches Ok(StepOutcome::SendPong)) && post
        == pre.skip(end) && pending is None)
    &&& (op == crate::decode::op_pong() ==> (r matches Ok(StepOutcome::PongMatched) || r matches
    Ok(StepOutcome::PongUnmatched)) && post == pre.skip(end) && pending is None)
    &&& (op == crate::decode::op_info() ==> {
        &&& crate::decode::json_accepts(args) ==> (r matches Ok(StepOutcome::Handshake(_)))
            && post == pre.skip(end) && pending is None
        &&& !crate::decode::json_accepts(args) ==> (r matches Err(e) && e
            == ProtoError::Encoding) && post == pre && pending is None
    })
    &&& (op == crate::decode::op_err() ==> (r matches Ok(StepOutcome::ServerReport(d)) && d@
        == crate::decode::trim_quotes(args)) && post == pre.skip(end) && pending is None)
    &&& (op != crate::decode::op_msg() && op != crate::decode::op_info() && op
        != crate::decode::op_ping() && op != crate::decode::op_pong() && op
        != crate::decode::op_err() ==> (r matches Ok(StepOutcome::UnknownOp(u)) && u@ == op)
        && post == pre.skip(end) && pending is None)
}

/// The fixed acknowledgement frame written back for every probe:
/// the bytes of `PONG` followed by the line terminator.
pub fn pong_frame() -> (v: Vec<u8>)
    ensures
        v@ == seq![0x50u8, 0x4fu8, 0x4eu8, 0x47u8, 0x0du8, 0x0au8],
{
    let mut v: Vec<u8> = Vec::new();
    v.push(0x50);
    v.push(0x4f);
    v.push(0x4e);
    v.push(0x47);
    v.push(0x0d);
    v.push(0x0a);
    proof {
        assert(v@ =~= seq![0x50u8, 0x4fu8, 0x4eu8, 0x47u8, 0x0du8, 0x0au8]);
    }
    v
}

/// Decodes the connection's first frame, which must be the
/// handshake: reports the record once its line has fully arrived,
/// asks for more input while it has not, and fails on any complete
/// first frame that is not a well-formed handshake.  A first line
/// that decodes as some other operation is consumed and refused with
/// the distinct not-a-handshake error; a line that cannot be decoded
/// at all is a parse error and consumes nothing.
pub fn expect_info(buf: &mut ReadBuffer) -> (r: Result<Option<serde_json::Value>, ProtoError>)
    requires
        old(buf).wf(),
    ensures
        final(buf).wf(),
        line_shape(old(buf)@) is Incomplete ==> (r matches Ok(v) && v is None) && final(buf)@
            == old(buf)@,
        line_shape(old(buf)@) is Malformed ==> (r matches Err(e) && e == ProtoError::Malformed)
            && final(buf)@ == old(buf)@,
        line_shape(old(buf)@) matches LineShape::Line { op_end, args_start, args_end, end } ==> {
            let op = old(buf)@.subrange(0, op_end);
            let args = old(buf)@.subrange(args_start, args_end);
            &&& (op == crate::decode::op_info() && crate::decode::json_accepts(args) ==> (
            r matches Ok(Some(_))) && final(buf)@ == old(buf)@.skip(end))
            &&& (op == crate::decode::op_info() && !crate::decode::json_accepts(args) ==> (
            r matches Err(e) && e == ProtoError::Encoding) && final(buf)@ == old(buf)@)
            &&& (op == crate::decode::op_msg() ==> match crate::decode::decode_msg_args(args) {
                Some(_) => (r matches Err(e) && e == ProtoError::NotInfo) && final(buf)@ == old(
                    buf,
                )@.skip(end),
                None => (r matches Err(e) && e == ProtoError::Malformed) && final(buf)@ == old(
                    buf,
                )@,
            })
            &&& (op != crate::decode::op_info() && op != crate::decode::op_msg() ==> (
            r matches Err(e) && e == ProtoError::NotInfo) && final(buf)@ == old(buf)@.skip(end))
        },
{
    proof {
        crate::grammar::lemma_line_shape_bounds(old(buf)@);
    }
    match buf.parse_control_op() {
        Err(e) => Err(e),
        Ok(None) => Ok(None),
        Ok(Some(op)) => match op {
            ControlOp::Info(v) => Ok(Some(v)),
            _ => Err(ProtoError::NotInfo),
        },
    }
}

} // verus!
