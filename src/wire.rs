use vstd::prelude::*;
use crate::ipc::{
    delivered, empty_mailbox, lemma_receive_order_matches_send_order, receive_n, send_all,
};
use crate::port::{CallError, ServiceObjectId};
use crate::service::MethodId;

verus! {

/// The four little-endian bytes of `x`.
pub open spec fn le_bytes(x: u32) -> Seq<u8> {
    seq![x as u8, (x >> 8u32) as u8, (x >> 16u32) as u8, (x >> 24u32) as u8]
}

/// The number whose little-endian bytes are `b[0..4]`.
pub open spec fn le_value(b: Seq<u8>) -> u32
    recommends
        b.len() >= 4,
{
    (b[0] as u32) | ((b[1] as u32) << 8u32) | ((b[2] as u32) << 16u32) | ((b[3] as u32) << 24u32)
}

/// A call message: the object id and the method ordinal, four
/// little-endian bytes each, then the argument bytes.
pub open spec fn call_bytes(object: ServiceObjectId, method: MethodId, args: Seq<u8>) -> Seq<u8> {
    le_bytes(object) + le_bytes(method) + args
}

/// What a call message says: `None` for fewer than eight bytes.
pub open spec fn parse_call(b: Seq<u8>) -> Option<(ServiceObjectId, MethodId, Seq<u8>)> {
    if b.len() < 8 {
        None
    } else {
        Some((le_value(b), le_value(b.subrange(4, 8)), b.subrange(8, b.len() as int)))
    }
}

/// Tag of a response that carries the bytes the object returned.
pub const RETURNED_TAG: u8 = 0;

/// Tag of a response saying that no object has the id called.
pub const NO_SUCH_OBJECT_TAG: u8 = 1;

/// A response message: a tag byte, then the result bytes if there are any.
pub open spec fn response_bytes(r: Result<Seq<u8>, CallError>) -> Seq<u8> {
    match r {
        Ok(result) => seq![RETURNED_TAG] + result,
        Err(_) => seq![NO_SUCH_OBJECT_TAG],
    }
}

/// What a response message says: `None` where it is malformed.
pub open spec fn parse_response(b: Seq<u8>) -> Option<Result<Seq<u8>, CallError>> {
    if b.len() == 0 {
        None
    } else if b[0] == RETURNED_TAG {
        Some(Ok(b.drop_first()))
    } else if b[0] == NO_SUCH_OBJECT_TAG && b.len() == 1 {
        Some(Err(CallError::NoSuchObject))
    } else {
        None
    }
}

/// A decoded call message.
pub struct CallMessage {
    pub object: ServiceObjectId,
    pub method: MethodId,
    pub args: Vec<u8>,
}

proof fn lemma_le_round_trip(x: u32)
    ensures
        le_value(le_bytes(x)) == x,
{
    let b = le_bytes(x);
    assert(b[0] == x as u8 && b[1] == (x >> 8u32) as u8 && b[2] == (x >> 16u32) as u8 && b[3] == (
    x >> 24u32) as u8);
    assert((((x as u8) as u32) | ((((x >> 8u32) as u8) as u32) << 8u32) | ((((x >> 16u32) as u8)
        as u32) << 16u32) | ((((x >> 24u32) as u8) as u32) << 24u32)) == x) by (bit_vector);
}

fn push_le(out: &mut Vec<u8>, x: u32)
    ensures
        final(out)@ == old(out)@ + le_bytes(x),
{
    out.push(x as u8);
    out.push((x >> 8u32) as u8);
    out.push((x >> 16u32) as u8);
    out.push((x >> 24u32) as u8);
    assert(final(out)@ =~= old(out)@ + le_bytes(x));
}

fn read_le(b: &[u8], at: usize) -> (r: u32)
    requires
        at + 4 <= b@.len(),
    ensures
        r == le_value(b@.subrange(at as int, at + 4)),
{
    (b[at] as u32) | ((b[at + 1] as u32) << 8u32) | ((b[at + 2] as u32) << 16u32) | ((b[at + 3]
        as u32) << 24u32)
}

/// The bytes of `b` from index `start` on.
pub fn copy_tail(b: &[u8], start: usize) -> (r: Vec<u8>)
    requires
        start <= b@.len(),
    ensures
        r@ == b@.subrange(start as int, b@.len() as int),
{
    let mut r: Vec<u8> = Vec::new();
    let mut i: usize = start;
    while i < b.len()
        invariant
            start <= i <= b@.len(),
            r@ == b@.subrange(start as int, i as int),
        decreases b@.len() - i,
    {
        r.push(b[i]);
        i = i + 1;
        assert(r@ =~= b@.subrange(start as int, i as int));
    }
    r
}

/// Frames a call of `method` on `object` with the given argument bytes.
pub fn encode_call(object: ServiceObjectId, method: MethodId, args: &[u8]) -> (r: Vec<u8>)
    ensures
        r@ == call_bytes(object, method, args@),
{
    let mut out: Vec<u8> = Vec::new();
    push_le(&mut out, object);
    push_le(&mut out, method);
    let mut i: usize = 0;
    while i < args.len()
        invariant
            i <= args@.len(),
            out@ == le_bytes(object) + le_bytes(method) + args@.subrange(0, i as int),
        decreases args@.len() - i,
    {
        out.push(args[i]);
        i = i + 1;
        assert(out@ =~= le_bytes(object) + le_bytes(method) + args@.subrange(0, i as int));
    }
    assert(args@.subrange(0, args@.len() as int) =~= args@);
    out
}

/// Reads a call message; `None` where it is too short to hold the header.
pub fn decode_call(b: &[u8]) -> (r: Option<CallMessage>)
    ensures
        match r {
            Some(m) => parse_call(b@) == Some((m.object, m.method, m.args@)),
            None => parse_call(b@) is None,
        },
{
    if b.len() < 8 {
        return None;
    }
    let object = read_le(b, 0);
    let method = read_le(b, 4);
    let args = copy_tail(b, 8);
    proof {
        let s = b@.subrange(0, 4);
        assert(s[0] == b@[0] && s[1] == b@[1] && s[2] == b@[2] && s[3] == b@[3]);
    }
    Some(CallMessage { object, method, args })
}

/// Frames the outcome of a call as a response message.
pub fn encode_response(r: &Result<Vec<u8>, CallError>) -> (out: Vec<u8>)
    ensures
        out@ == response_bytes(match r {
            Ok(v) => Ok(v@),
            Err(e) => Err(*e),
        }),
{
    let mut out: Vec<u8> = Vec::new();
    match r {
        Ok(result) => {
            out.push(RETURNED_TAG);
            let mut i: usize = 0;
            while i < result.len()
                invariant
                    i <= result@.len(),
                    out@ == seq![RETURNED_TAG] + result@.subrange(0, i as int),
                decreases result@.len() - i,
            {
                out.push(result[i]);
                i = i + 1;
                assert(out@ =~= seq![RETURNED_TAG] + result@.subrange(0, i as int));
            }
            assert(result@.subrange(0, result@.len() as int) =~= result@);
        },
        Err(_) => {
            out.push(NO_SUCH_OBJECT_TAG);
            assert(out@ =~= seq![NO_SUCH_OBJECT_TAG]);
        },
    }
    out
}

/// Reads a response message; `None` where it is malformed, which is a
/// protocol fault for the whole channel.
pub fn decode_response(b: &[u8]) -> (r: Option<Result<Vec<u8>, CallError>>)
    ensures
        parse_response(b@) == match r {
            Some(Ok(v)) => Some(Ok(v@)),
            Some(Err(e)) => Some(Err(e)),
            None => None::<Result<Seq<u8>, CallError>>,
        },
{
    if b.len() == 0 {
        None
    } else if b[0] == RETURNED_TAG {
        let rest = copy_tail(b, 1);
        assert(b@.subrange(1, b@.len() as int) =~= b@.drop_first());
        Some(Ok(rest))
    } else if b[0] == NO_SUCH_OBJECT_TAG && b.len() == 1 {
        Some(Err(CallError::NoSuchObject))
    } else {
        None
    }
}

/// A call message reads back as the object id, method ordinal and
/// argument bytes it was framed from.
pub proof fn lemma_call_round_trip(object: ServiceObjectId, method: MethodId, args: Seq<u8>)
    ensures
        parse_call(call_bytes(object, method, args)) == Some((object, method, args)),
{
    let b = call_bytes(object, method, args);
    lemma_le_round_trip(object);
    lemma_le_round_trip(method);
    assert(b.subrange(4, 8) =~= le_bytes(method));
    assert(b.subrange(8, b.len() as int) =~= args);
    assert(b[0] == le_bytes(object)[0] && b[1] == le_bytes(object)[1] && b[2] == le_bytes(
        object,
    )[2] && b[3] == le_bytes(object)[3]);
}

/// A response message reads back as the outcome it was framed from.
pub proof fn lemma_response_round_trip(r: Result<Seq<u8>, CallError>)
    ensures
        parse_response(response_bytes(r)) == Some(r),
{
    match r {
        Ok(result) => {
            assert(response_bytes(r).drop_first() =~= result);
        },
        Err(e) => {
            assert(e == CallError::NoSuchObject);
        },
    }
}

/// The call messages framed from `calls`, in order.
pub open spec fn call_messages(calls: Seq<(ServiceObjectId, MethodId, Seq<u8>)>) -> Seq<Seq<u8>> {
    calls.map_values(|c: (ServiceObjectId, MethodId, Seq<u8>)| call_bytes(c.0, c.1, c.2))
}

/// Calls sent by one sender over a fresh channel reach the receiver in the
/// order they were sent, and each reads back as the call it was framed from.
pub proof fn lemma_calls_arrive_in_send_order(calls: Seq<(ServiceObjectId, MethodId, Seq<u8>)>)
    ensures
        receive_n(send_all(empty_mailbox(), call_messages(calls)), calls.len()) == delivered(
            call_messages(calls),
        ),
        forall|i: int|
            0 <= i < calls.len() ==> parse_call(#[trigger] call_messages(calls)[i]) == Some(
                calls[i],
            ),
{
    let msgs = call_messages(calls);
    lemma_receive_order_matches_send_order(empty_mailbox(), msgs);
    assert(empty_mailbox().pending + msgs =~= msgs);
    assert forall|i: int| 0 <= i < calls.len() implies parse_call(
        #[trigger] call_messages(calls)[i],
    ) == Some(calls[i]) by {
        lemma_call_round_trip(calls[i].0, calls[i].1, calls[i].2);
    }
}

} // verus!
