//! The incremental control-line parser: a read-ahead buffer that
//! accumulates bytes as they arrive from the connection and gives
//! back exactly one decoded operation per complete line, consuming
//! exactly the bytes that operation occupied and no others.

use vstd::prelude::*;
use crate::grammar::LineShape;
use crate::grammar::Tokenized;
use crate::grammar::line_shape;
use crate::grammar::lemma_line_shape_bounds;
use crate::grammar::tokenize_line;
use crate::decode::ControlOp;
use crate::decode::ProtoError;
use crate::decode::decode_msg_args;
use crate::decode::is_err_op;
use crate::decode::is_info_op;
use crate::decode::is_msg_op;
use crate::decode::is_ping_op;
use crate::decode::is_pong_op;
use crate::decode::json_accepts;
use crate::decode::op_err;
use crate::decode::op_info;
use crate::decode::op_msg;
use crate::decode::op_ping;
use crate::decode::op_pong;
use crate::decode::parse_err;
use crate::decode::parse_error;
use crate::decode::parse_info;
use crate::decode::parse_msg_args;
use crate::decode::trim_quotes;

verus! {

/// The read-ahead buffer in front of the connection.  Bytes are fed
/// in as they arrive and retired from the front exactly as the
/// operations they form are produced; its view is the sequence of
/// bytes not yet consumed.
pub struct ReadBuffer {
    data: Vec<u8>,
    start: usize,
}

impl View for ReadBuffer {
    type V = Seq<u8>;

    closed spec fn view(&self) -> Seq<u8> {
        self.data@.subrange(self.start as int, self.data@.len() as int)
    }
}

impl ReadBuffer {
    /// The consumed prefix never extends past what has arrived.
    pub closed spec fn wf(&self) -> bool {
        self.start <= self.data@.len()
    }

    /// An empty buffer.
    pub fn new() -> (b: ReadBuffer)
        ensures
            b.wf(),
            b@ == Seq::<u8>::empty(),
    {
        let b = ReadBuffer { data: Vec::new(), start: 0 };
        proof {
            assert(b@ =~= Seq::<u8>::empty());
        }
        b
    }

    /// How many unconsumed bytes the buffer holds.
    pub fn remaining(&self) -> (n: usize)
        requires
            self.wf(),
        ensures
            n == self@.len(),
    {
        self.data.len() - self.start
    }

    /// Appends a chunk of bytes read from the connection.
    pub fn feed(&mut self, chunk: &[u8])
        requires
            old(self).wf(),
        ensures
            final(self).wf(),
            final(self)@ == old(self)@ + chunk@,
    {
        if self.start == self.data.len() {
            self.data.clear();
            self.start = 0;
        }
        proof {
            assert(self@ =~= old(self)@);
        }
        let ghost mid = self@;
        let ghost base = self.data@;
        let mut tail = vstd::slice::slice_to_vec(chunk);
        self.data.append(&mut tail);
        proof {
            assert(self@ =~= base.subrange(self.start as int, base.len() as int) + chunk@);
            assert(self@ =~= mid + chunk@);
        }
    }

    /// Retires `n` bytes from the front of the buffer.
    fn consume(&mut self, n: usize)
        requires
            old(self).wf(),
            n <= old(self)@.len(),
        ensures
            final(self).wf(),
            final(self)@ == old(self)@.skip(n as int),
    {
        let total = self.data.len();
        proof {
            assert(old(self)@.len() == total - self.start);
        }
        self.start = self.start + n;
        proof {
            assert(self@ =~= old(self)@.skip(n as int));
        }
    }

    /// Produces the one operation occupying the control line at the
    /// front of the buffer and consumes exactly its bytes; reports
    /// `None` while the line's terminator has not arrived yet, and a
    /// fatal error, consuming nothing, when the line cannot be
    /// decoded.
    pub fn parse_control_op(&mut self) -> (r: Result<Option<ControlOp>, ProtoError>)
        requires
            old(self).wf(),
        ensures
            final(self).wf(),
            line_shape(old(self)@) is Incomplete ==> (r matches Ok(op) && op is None)
                && final(self)@ == old(self)@,
            line_shape(old(self)@) is Malformed ==> (r matches Err(e) && e
                == ProtoError::Malformed) && final(self)@ == old(self)@,
            line_shape(old(self)@) matches LineShape::Line { op_end, args_start, args_end, end }
                ==> parse_line_post(old(self)@, final(self)@, r, op_end, args_start, args_end, end),
    {
        proof {
            lemma_line_shape_bounds(old(self)@);
        }
        let len = self.data.len();
        let buf = vstd::slice::slice_subrange(self.data.as_slice(), self.start, len);
        assert(buf@ == self@);
        match tokenize_line(buf) {
            Tokenized::Incomplete => Ok(None),
            Tokenized::Malformed => Err(parse_error()),
            Tokenized::Line { op_end, args_start, args_end, end } => {
                let op = vstd::slice::slice_subrange(buf, 0, op_end);
                let args = vstd::slice::slice_subrange(buf, args_start, args_end);
                let parsed: ControlOp = if is_msg_op(op) {
                    match parse_msg_args(args) {
                        Ok(o) => o,
                        Err(e) => {
                            return Err(e);
                        },
                    }
                } else if is_info_op(op) {
                    match parse_info(args) {
                        Ok(o) => o,
                        Err(e) => {
                            return Err(e);
                        },
                    }
                } else if is_ping_op(op) {
                    ControlOp::Ping
                } else if is_pong_op(op) {
                    ControlOp::Pong
                } else if is_err_op(op) {
                    parse_err(args)
                } else {
                    ControlOp::Unknown(vstd::slice::slice_to_vec(op))
                };
                self.consume(end);
                Ok(Some(parsed))
            },
        }
    }

    /// Hands out exactly the declared number of payload bytes and
    /// retires them together with the two terminator bytes that
    /// follow, whatever the payload holds; reports `None`, changing
    /// nothing, while fewer bytes than that have arrived.
    pub fn take_payload(&mut self, mlen: u32) -> (r: Option<Vec<u8>>)
        requires
            old(self).wf(),
        ensures
            final(self).wf(),
            old(self)@.len() >= mlen + 2 ==> (r matches Some(p) && p@ == old(self)@.take(
                mlen as int,
            )) && final(self)@ == old(self)@.skip(mlen + 2),
            old(self)@.len() < mlen + 2 ==> r is None && final(self)@ == old(self)@,
    {
        let rem = self.data.len() - self.start;
        if rem < 2 || rem - 2 < mlen as usize {
            return None;
        }
        let end = self.start + mlen as usize;
        let payload = vstd::slice::slice_to_vec(
            vstd::slice::slice_subrange(self.data.as_slice(), self.start, end),
        );
        proof {
            assert(payload@ =~= old(self)@.take(mlen as int));
        }
        self.start = end + 2;
        proof {
            assert(self@ =~= old(self)@.skip(mlen + 2));
        }
        Some(payload)
    }
}

/// What holds of the parse of a complete control line occupying
/// `pre.subrange(0, end)`: the operation token selects the decoder,
/// a decoded operation retires exactly `end` bytes, and a decoder
/// failure is fatal and retires nothing.
pub open spec fn parse_line_post(
    pre: Seq<u8>,
    post: Seq<u8>,
    r: Result<Option<ControlOp>, ProtoError>,
    op_end: int,
    args_start: int,
    args_end: int,
    end: int,
) -> bool {
    let op = pre.subrange(0, op_end);
    let args = pre.subrange(args_start, args_end);
    &&& (op == op_msg() ==> match decode_msg_args(args) {
        Some(m) => (r matches Ok(Some(ControlOp::Msg(ma))) && ma@ == m) && post == pre.skip(end),
        None => (r matches Err(e) && e == ProtoError::Malformed) && post == pre,
    })
    &&& (op == op_info() ==> {
        &&& json_accepts(args) ==> (r matches Ok(Some(ControlOp::Info(_)))) && post == pre.skip(
            end,
        )
        &&& !json_accepts(args) ==> (r matches Err(e) && e == ProtoError::Encoding) && post == pre
    })
    &&& (op == op_ping() ==> (r matches Ok(Some(ControlOp::Ping))) && post == pre.skip(end))
    &&& (op == op_pong() ==> (r matches Ok(Some(ControlOp::Pong))) && post == pre.skip(end))
    &&& (op == op_err() ==> (r matches Ok(Some(ControlOp::ServerError(d))) && d@ == trim_quotes(
        args,
    )) && post == pre.skip(end))
    &&& (op != op_msg() && op != op_info() && op != op_ping() && op != op_pong() && op != op_err()
        ==> (r matches Ok(Some(ControlOp::Unknown(u))) && u@ == op) && post == pre.skip(end))
}

/// The payload handed out for a message frame holds exactly the
/// declared number of bytes, whatever those bytes are — embedded
/// terminator-like sequences included — since it is cut from the
/// buffer by count alone.
pub proof fn lemma_payload_exact(pre: Seq<u8>, mlen: u32)
    requires
        pre.len() >= mlen + 2,
    ensures
        pre.take(mlen as int).len() == mlen,
        forall|i: int| 0 <= i < mlen ==> pre.take(mlen as int)[i] == pre[i],
{
}

/// Bytes fed in two separate chunks fill the buffer exactly as the
/// same bytes fed in one chunk: appending is associative, and every
/// parsing operation is specified over the buffer's contents alone,
/// so a control line split across two reads parses identically to
/// one that arrives whole.
pub proof fn lemma_chunked_feed(base: Seq<u8>, a: Seq<u8>, b: Seq<u8>)
    ensures
        (base + a) + b == base + (a + b),
{
    assert((base + a) + b =~= base + (a + b));
}

} // verus!
