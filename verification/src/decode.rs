//! Decoding of a control line's argument bytes into typed protocol
//! values: message-frame headers, the handshake record, server error
//! descriptions, and the fixed operation vocabulary.

use vstd::prelude::*;
use crate::numbers::dec_token;
use crate::numbers::dec_val;
use crate::numbers::digits_of;
use crate::numbers::parse_u32;
use crate::numbers::parse_usize;

verus! {

/// A fatal condition raised while consuming the byte stream.
/// `Malformed` covers an unusable operation line (bad leading byte,
/// wrong argument arity, non-numeric id or length); `Encoding` a
/// handshake record that fails structured decoding; `NotInfo` a first
/// frame that is not a handshake.
#[derive(Clone, Copy, Debug, PartialEq, Eq, Structural)]
pub enum ProtoError {
    Malformed,
    Encoding,
    NotInfo,
}

/// The error raised for input whose framing cannot be trusted.
pub fn parse_error() -> (e: ProtoError)
    ensures
        e == ProtoError::Malformed,
{
    ProtoError::Malformed
}

/// The decoded header of a message frame: subject, optional
/// reply-subject, declared payload length, and subscription id.
#[derive(Debug)]
pub struct MsgArgs {
    pub subject: Vec<u8>,
    pub reply: Option<Vec<u8>>,
    pub mlen: u32,
    pub sid: usize,
}

/// The mathematical content of a [`MsgArgs`] value.
pub struct MsgArgsView {
    pub subject: Seq<u8>,
    pub reply: Option<Seq<u8>>,
    pub mlen: u32,
    pub sid: usize,
}

impl View for MsgArgs {
    type V = MsgArgsView;

    open spec fn view(&self) -> MsgArgsView {
        MsgArgsView {
            subject: self.subject@,
            reply: match self.reply {
                Some(r) => Some(r@),
                None => None,
            },
            mlen: self.mlen,
            sid: self.sid,
        }
    }
}

/// Splitting `s` on single spaces, read from index `i` on with `cur`
/// the partial token already gathered.  Every space ends a token, so
/// adjacent spaces produce empty tokens, and the empty sequence has
/// exactly one (empty) token.
pub open spec fn split_acc(s: Seq<u8>, i: int, cur: Seq<u8>) -> Seq<Seq<u8>>
    decreases s.len() - i
    when 0 <= i <= s.len()
{
    if i >= s.len() {
        seq![cur]
    } else if s[i] == 0x20 {
        seq![cur] + split_acc(s, i + 1, Seq::empty())
    } else {
        split_acc(s, i + 1, cur.push(s[i]))
    }
}

/// The tokens of `s`, split on every single space byte.
pub open spec fn split_spaces(s: Seq<u8>) -> Seq<Seq<u8>> {
    split_acc(s, 0, Seq::empty())
}

/// The views of a sequence of byte vectors.
pub open spec fn views(ts: Seq<Vec<u8>>) -> Seq<Seq<u8>> {
    ts.map_values(|t: Vec<u8>| t@)
}

/// Splits argument bytes on every single space byte, keeping empty
/// tokens, exactly as the split of [`split_spaces`] describes.
pub fn split_args(args: &[u8]) -> (toks: Vec<Vec<u8>>)
    ensures
        toks@.len() == split_spaces(args@).len(),
        forall|k: int| 0 <= k < toks@.len() ==> toks@[k]@ == split_spaces(args@)[k],
{
    let n = args.len();
    let mut toks: Vec<Vec<u8>> = Vec::new();
    let mut cur: Vec<u8> = Vec::new();
    let mut i: usize = 0;
    proof {
        assert(views(toks@) + split_acc(args@, 0, cur@) =~= split_spaces(args@));
    }
    while i < n
        invariant
            0 <= i <= n,
            n == args@.len(),
            split_spaces(args@) == views(toks@) + split_acc(args@, i as int, cur@),
        decreases n - i,
    {
        if args[i] == 0x20 {
            proof {
                assert(views(toks@.push(cur)) =~= views(toks@).push(cur@));
                assert(views(toks@) + split_acc(args@, i as int, cur@) =~~= views(
                    toks@.push(cur),
                ) + split_acc(args@, i + 1, Seq::empty()));
            }
            toks.push(cur);
            cur = Vec::new();
        } else {
            let c = args[i];
            cur.push(c);
        }
        i = i + 1;
    }
    proof {
        assert(split_acc(args@, n as int, cur@) =~= seq![cur@]);
        assert(views(toks@.push(cur)) =~= views(toks@).push(cur@));
        assert(views(toks@) + seq![cur@] =~~= views(toks@.push(cur)));
    }
    toks.push(cur);
    proof {
        assert(forall|k: int|
            0 <= k < toks@.len() ==> toks@[k]@ == #[trigger] views(toks@)[k]);
    }
    toks
}

/// The value of a subscription-id token, when it is a well-formed
/// numeral whose value fits in a machine word.
pub open spec fn spec_parse_usize(s: Seq<u8>) -> Option<usize> {
    if dec_token(s) && dec_val(digits_of(s)) <= usize::MAX {
        Some(dec_val(digits_of(s)) as usize)
    } else {
        None
    }
}

/// The value of a declared-length token, when it is a well-formed
/// numeral whose value fits in 32 bits.
pub open spec fn spec_parse_u32(s: Seq<u8>) -> Option<u32> {
    if dec_token(s) && dec_val(digits_of(s)) <= u32::MAX {
        Some(dec_val(digits_of(s)) as u32)
    } else {
        None
    }
}

/// The header a message frame's argument bytes describe: exactly
/// three tokens give subject, id and length with no reply-subject;
/// exactly four give subject, id, reply-subject and length; any other
/// arity, or a token that is not a numeral of the required range,
/// decodes to nothing.
pub open spec fn decode_msg_args(args: Seq<u8>) -> Option<MsgArgsView> {
    let toks = split_spaces(args);
    if toks.len() == 3 {
        match (spec_parse_usize(toks[1]), spec_parse_u32(toks[2])) {
            (Some(sid), Some(mlen)) => Some(
                MsgArgsView { subject: toks[0], reply: None, mlen, sid },
            ),
            _ => None,
        }
    } else if toks.len() == 4 {
        match (spec_parse_usize(toks[1]), spec_parse_u32(toks[3])) {
            (Some(sid), Some(mlen)) => Some(
                MsgArgsView { subject: toks[0], reply: Some(toks[2]), mlen, sid },
            ),
            _ => None,
        }
    } else {
        None
    }
}

/// A well-formed header of exactly three tokens never carries a
/// reply-subject; one of exactly four carries its third token as the
/// reply-subject; and any other token count decodes to nothing.
pub proof fn lemma_msg_args_arity(args: Seq<u8>)
    ensures
        split_spaces(args).len() == 3 ==> (decode_msg_args(args) matches Some(m) ==> m.reply
            is None),
        split_spaces(args).len() == 4 ==> (decode_msg_args(args) matches Some(m) ==> m.reply
            == Some(split_spaces(args)[2])),
        split_spaces(args).len() != 3 && split_spaces(args).len() != 4 ==> decode_msg_args(args)
            is None,
{
}

/// One decoded protocol event, produced exactly once per successfully
/// parsed control line.
pub enum ControlOp {
    Msg(MsgArgs),
    Info(serde_json::Value),
    Ping,
    Pong,
    ServerError(Vec<u8>),
    Unknown(Vec<u8>),
}

/// The operation name of a message frame, `MSG`.
pub open spec fn op_msg() -> Seq<u8> {
    seq![0x4du8, 0x53u8, 0x47u8]
}

/// The operation name of the handshake, `INFO`.
pub open spec fn op_info() -> Seq<u8> {
    seq![0x49u8, 0x4eu8, 0x46u8, 0x4fu8]
}

/// The operation name of a keepalive probe, `PING`.
pub open spec fn op_ping() -> Seq<u8> {
    seq![0x50u8, 0x49u8, 0x4eu8, 0x47u8]
}

/// The operation name of a keepalive acknowledgement, `PONG`.
pub open spec fn op_pong() -> Seq<u8> {
    seq![0x50u8, 0x4fu8, 0x4eu8, 0x47u8]
}

/// The operation name of a server-reported error, `-ERR`.
pub open spec fn op_err() -> Seq<u8> {
    seq![0x2du8, 0x45u8, 0x52u8, 0x52u8]
}

/// The token names a message frame.
pub fn is_msg_op(op: &[u8]) -> (r: bool)
    ensures
        r == (op@ == op_msg()),
{
    let r = op.len() == 3 && op[0] == 0x4d && op[1] == 0x53 && op[2] == 0x47;
    proof {
        if r {
            assert(op@ =~= op_msg());
        }
    }
    r
}

/// The token names the handshake.
pub fn is_info_op(op: &[u8]) -> (r: bool)
    ensures
        r == (op@ == op_info()),
{
    let r = op.len() == 4 && op[0] == 0x49 && op[1] == 0x4e && op[2] == 0x46 && op[3] == 0x4f;
    proof {
        if r {
            assert(op@ =~= op_info());
        }
    }
    r
}

/// The token names a keepalive probe.
pub fn is_ping_op(op: &[u8]) -> (r: bool)
    ensures
        r == (op@ == op_ping()),
{
    let r = op.len() == 4 && op[0] == 0x50 && op[1] == 0x49 && op[2] == 0x4e && op[3] == 0x47;
    proof {
        if r {
            assert(op@ =~= op_ping());
        }
    }
    r
}

/// The token names a keepalive acknowledgement.
pub fn is_pong_op(op: &[u8]) -> (r: bool)
    ensures
        r == (op@ == op_pong()),
{
    let r = op.len() == 4 && op[0] == 0x50 && op[1] == 0x4f && op[2] == 0x4e && op[3] == 0x47;
    proof {
        if r {
            assert(op@ =~= op_pong());
        }
    }
    r
}

/// The token names a server-reported error.
pub fn is_err_op(op: &[u8]) -> (r: bool)
    ensures
        r == (op@ == op_err()),
{
    let r = op.len() == 4 && op[0] == 0x2d && op[1] == 0x45 && op[2] == 0x52 && op[3] == 0x52;
    proof {
        if r {
            assert(op@ =~= op_err());
        }
    }
    r
}

/// Decodes message-frame argument bytes into a header, failing with
/// `Malformed` exactly when [`decode_msg_args`] describes no header.
pub fn parse_msg_args(args: &[u8]) -> (r: Result<ControlOp, ProtoError>)
    ensures
        match decode_msg_args(args@) {
            Some(m) => r matches Ok(ControlOp::Msg(ma)) && ma@ == m,
            None => r matches Err(e) && e == ProtoError::Malformed,
        },
{
    let toks = split_args(args);
    if toks.len() == 3 {
        let sid = match parse_usize(toks[1].as_slice()) {
            Some(s) => s,
            None => {
                return Err(ProtoError::Malformed);
            },
        };
        let mlen = match parse_u32(toks[2].as_slice()) {
            Some(m) => m,
            None => {
                return Err(ProtoError::Malformed);
            },
        };
        let subject = vstd::slice::slice_to_vec(toks[0].as_slice());
        Ok(ControlOp::Msg(MsgArgs { subject, reply: None, mlen, sid }))
    } else if toks.len() == 4 {
        let sid = match parse_usize(toks[1].as_slice()) {
            Some(s) => s,
            None => {
                return Err(ProtoError::Malformed);
            },
        };
        let mlen = match parse_u32(toks[3].as_slice()) {
            Some(m) => m,
            None => {
                return Err(ProtoError::Malformed);
            },
        };
        let subject = vstd::slice::slice_to_vec(toks[0].as_slice());
        let reply = vstd::slice::slice_to_vec(toks[2].as_slice());
        Ok(ControlOp::Msg(MsgArgs { subject, reply: Some(reply), mlen, sid }))
    } else {
        Err(ProtoError::Malformed)
    }
}

/// The index just past the run of quote bytes that starts at `i`.
pub open spec fn quote_run_end(s: Seq<u8>, i: int) -> int
    decreases s.len() - i
    when 0 <= i <= s.len()
{
    if i < s.len() && s[i] == 0x27 {
        quote_run_end(s, i + 1)
    } else {
        i
    }
}

/// The index at the start of the run of quote bytes that ends at `i`.
pub open spec fn quote_run_start(s: Seq<u8>, i: int) -> int
    decreases i
    when 0 <= i <= s.len()
{
    if i > 0 && s[i - 1] == 0x27 {
        quote_run_start(s, i - 1)
    } else {
        i
    }
}

/// An error description with every leading and trailing quote byte
/// removed; when quotes are all there is, nothing remains.
pub open spec fn trim_quotes(s: Seq<u8>) -> Seq<u8> {
    let a = quote_run_end(s, 0);
    let b = quote_run_start(s, s.len() as int);
    if a <= b {
        s.subrange(a, b)
    } else {
        Seq::empty()
    }
}

/// Decodes a server-reported error: the argument bytes become the
/// description with outer quotes stripped.  This decoder never fails.
pub fn parse_err(args: &[u8]) -> (op: ControlOp)
    ensures
        op matches ControlOp::ServerError(d) && d@ == trim_quotes(args@),
{
    let n = args.len();
    let mut a: usize = 0;
    while a < n && args[a] == 0x27
        invariant
            0 <= a <= n,
            n == args@.len(),
            quote_run_end(args@, 0) == quote_run_end(args@, a as int),
        decreases n - a,
    {
        a = a + 1;
    }
    assert(quote_run_end(args@, a as int) == a);
    let mut b: usize = n;
    while b > 0 && args[b - 1] == 0x27
        invariant
            0 <= b <= n,
            n == args@.len(),
            quote_run_start(args@, n as int) == quote_run_start(args@, b as int),
        decreases b,
    {
        b = b - 1;
    }
    assert(quote_run_start(args@, b as int) == b);
    let d: Vec<u8> = if a <= b {
        vstd::slice::slice_to_vec(vstd::slice::slice_subrange(args, a, b))
    } else {
        Vec::new()
    };
    ControlOp::ServerError(d)
}

#[verifier::external_type_specification]
#[verifier::external_body]
pub struct ExValue(serde_json::Value);

/// The byte sequences that decode as one structured handshake
/// record.
pub uninterp spec fn json_accepts(s: Seq<u8>) -> bool;

/// Relies on serde_json::from_slice::<Value>: it returns a structured
/// record exactly when the bytes form one valid record, and its
/// outcome depends on the bytes alone.
#[verifier::external_body]
fn json_from_slice(b: &[u8]) -> (r: Option<serde_json::Value>)
    ensures
        r is Some <==> json_accepts(b@),
{
    serde_json::from_slice(b).ok()
}

/// Decodes the handshake record carried by an `INFO` line, failing
/// with `Encoding` exactly when the bytes are no valid record.
pub fn parse_info(args: &[u8]) -> (r: Result<ControlOp, ProtoError>)
    ensures
        json_accepts(args@) ==> r matches Ok(ControlOp::Info(_)),
        !json_accepts(args@) ==> (r matches Err(e) && e == ProtoError::Encoding),
{
    match json_from_slice(args) {
        Some(v) => Ok(ControlOp::Info(v)),
        None => Err(ProtoError::Encoding),
    }
}

} // verus!
