//! The JSON text of outgoing messages, as it is written on the wire.
use vstd::prelude::*;
use vstd::utf8::encode_utf8;
use crate::codec::{
    decimal, decode_spec, frame_of, lemma_round_trip, parses_as_json, push_all, push_decimal,
    split_spec, DecodedView, FramedView,
};
use crate::jsonrpc::{Error, Id, Outcome, Outgoing, Response};

verus! {

/// The JSON string literal (quoted and escaped) that stands for `s`.
pub uninterp spec fn json_string_of(s: Seq<char>) -> Seq<u8>;

/// Relies on serde_json::to_vec on a `str`: the quoted, escaped string.
/// Writing a string into a `Vec` does not fail.
#[verifier::external_body]
fn quote(s: &str) -> (r: Vec<u8>)
    ensures
        r@ == json_string_of(s@),
{
    match serde_json::to_vec(s) {
        Ok(v) => v,
        Err(_) => Vec::new(),
    }
}

/// The bytes `{"jsonrpc":"2.0",`.
pub open spec fn head_bytes() -> Seq<u8> {
    seq![123u8, 34, 106, 115, 111, 110, 114, 112, 99, 34, 58, 34, 50, 46, 48, 34, 44]
}

/// The bytes `"result":`.
pub open spec fn result_key_bytes() -> Seq<u8> {
    seq![34u8, 114, 101, 115, 117, 108, 116, 34, 58]
}

/// The bytes `"error":{"code":`.
pub open spec fn error_key_bytes() -> Seq<u8> {
    seq![34u8, 101, 114, 114, 111, 114, 34, 58, 123, 34, 99, 111, 100, 101, 34, 58]
}

/// The bytes `,"message":`.
pub open spec fn message_key_bytes() -> Seq<u8> {
    seq![44u8, 34, 109, 101, 115, 115, 97, 103, 101, 34, 58]
}

/// The bytes `,"data":`.
pub open spec fn data_key_bytes() -> Seq<u8> {
    seq![44u8, 34, 100, 97, 116, 97, 34, 58]
}

/// The bytes `}`.
pub open spec fn close_bytes() -> Seq<u8> {
    seq![125u8]
}

/// The bytes `,"id":`.
pub open spec fn id_key_bytes() -> Seq<u8> {
    seq![44u8, 34, 105, 100, 34, 58]
}

/// The bytes `null`.
pub open spec fn null_bytes() -> Seq<u8> {
    seq![110u8, 117, 108, 108]
}

/// The bytes `-`.
pub open spec fn minus_bytes() -> Seq<u8> {
    seq![45u8]
}

/// The JSON number for `n`.
pub open spec fn int_json(n: int) -> Seq<u8> {
    if n < 0 {
        minus_bytes() + decimal((-n) as nat)
    } else {
        decimal(n as nat)
    }
}

/// The JSON text of an id.
pub open spec fn id_json(id: Id) -> Seq<u8> {
    match id {
        Id::Number(n) => int_json(n as int),
        Id::String(s) => json_string_of(s@),
        Id::Null => null_bytes(),
    }
}

/// The JSON text of an error object; `data` is left out when absent.
pub open spec fn error_json(e: Error) -> Seq<u8> {
    error_key_bytes() + int_json(e.code.spec_code()) + message_key_bytes() + json_string_of(
        e.message@,
    ) + match e.data {
        Some(d) => data_key_bytes() + encode_utf8(d@),
        None => Seq::empty(),
    } + close_bytes()
}

/// The JSON text of a response: `jsonrpc` first, then `result` or
/// `error`, then `id`.
pub open spec fn response_json(r: Response) -> Seq<u8> {
    head_bytes() + match r.outcome {
        Outcome::Result(t) => result_key_bytes() + encode_utf8(t@),
        Outcome::Error(e) => error_json(e),
    } + id_key_bytes() + id_json(r.id) + close_bytes()
}

/// The JSON text of an outgoing message.
pub open spec fn outgoing_json(m: Outgoing) -> Seq<u8> {
    match m {
        Outgoing::Response(r) => response_json(r),
        Outgoing::Request(t) => encode_utf8(t@),
    }
}

/// Appends `{"jsonrpc":"2.0",` to `out`.
fn push_head(out: &mut Vec<u8>)
    ensures
        final(out)@ == old(out)@ + head_bytes(),
{
    let b: Vec<u8> = vec![123u8, 34, 106, 115, 111, 110, 114, 112, 99, 34, 58, 34, 50, 46, 48, 34, 44];
    assert(b@ =~= head_bytes());
    push_all(b.as_slice(), out);
}

/// Appends `"result":` to `out`.
fn push_result_key(out: &mut Vec<u8>)
    ensures
        final(out)@ == old(out)@ + result_key_bytes(),
{
    let b: Vec<u8> = vec![34u8, 114, 101, 115, 117, 108, 116, 34, 58];
    assert(b@ =~= result_key_bytes());
    push_all(b.as_slice(), out);
}

/// Appends `"error":{"code":` to `out`.
fn push_error_key(out: &mut Vec<u8>)
    ensures
        final(out)@ == old(out)@ + error_key_bytes(),
{
    let b: Vec<u8> = vec![34u8, 101, 114, 114, 111, 114, 34, 58, 123, 34, 99, 111, 100, 101, 34, 58];
    assert(b@ =~= error_key_bytes());
    push_all(b.as_slice(), out);
}

/// Appends `,"message":` to `out`.
fn push_message_key(out: &mut Vec<u8>)
    ensures
        final(out)@ == old(out)@ + message_key_bytes(),
{
    let b: Vec<u8> = vec![44u8, 34, 109, 101, 115, 115, 97, 103, 101, 34, 58];
    assert(b@ =~= message_key_bytes());
    push_all(b.as_slice(), out);
}

/// Appends `,"data":` to `out`.
fn push_data_key(out: &mut Vec<u8>)
    ensures
        final(out)@ == old(out)@ + data_key_bytes(),
{
    let b: Vec<u8> = vec![44u8, 34, 100, 97, 116, 97, 34, 58];
    assert(b@ =~= data_key_bytes());
    push_all(b.as_slice(), out);
}

/// Appends `}` to `out`.
fn push_close(out: &mut Vec<u8>)
    ensures
        final(out)@ == old(out)@ + close_bytes(),
{
    let b: Vec<u8> = vec![125u8];
    assert(b@ =~= close_bytes());
    push_all(b.as_slice(), out);
}

/// Appends `,"id":` to `out`.
fn push_id_key(out: &mut Vec<u8>)
    ensures
        final(out)@ == old(out)@ + id_key_bytes(),
{
    let b: Vec<u8> = vec![44u8, 34, 105, 100, 34, 58];
    assert(b@ =~= id_key_bytes());
    push_all(b.as_slice(), out);
}

/// Appends `null` to `out`.
fn push_null(out: &mut Vec<u8>)
    ensures
        final(out)@ == old(out)@ + null_bytes(),
{
    let b: Vec<u8> = vec![110u8, 117, 108, 108];
    assert(b@ =~= null_bytes());
    push_all(b.as_slice(), out);
}

/// Appends `-` to `out`.
fn push_minus(out: &mut Vec<u8>)
    ensures
        final(out)@ == old(out)@ + minus_bytes(),
{
    let b: Vec<u8> = vec![45u8];
    assert(b@ =~= minus_bytes());
    push_all(b.as_slice(), out);
}

/// Appends the UTF-8 bytes of `s` to `out`.
fn push_str(s: &String, out: &mut Vec<u8>)
    ensures
        final(out)@ == old(out)@ + encode_utf8(s@),
{
    push_all(s.as_str().as_bytes(), out);
}

/// Appends the JSON number for `n` to `out`.
fn push_int(n: i64, out: &mut Vec<u8>)
    ensures
        final(out)@ == old(out)@ + int_json(n as int),
{
    if n < 0 {
        push_minus(out);
        let m: u64 = if n == i64::MIN {
            9223372036854775808u64
        } else {
            (-n) as u64
        };
        push_decimal(m, out);
        assert(final(out)@ =~= old(out)@ + int_json(n as int));
    } else {
        push_decimal(n as u64, out);
    }
}

/// Appends the JSON text of `id` to `out`.
fn push_id(id: &Id, out: &mut Vec<u8>)
    ensures
        final(out)@ == old(out)@ + id_json(*id),
{
    match id {
        Id::Number(n) => push_int(*n, out),
        Id::String(s) => {
            let q = quote(s.as_str());
            push_all(q.as_slice(), out);
        },
        Id::Null => push_null(out),
    }
}

/// Appends the JSON text of `e` to `out`.
fn push_error(e: &Error, out: &mut Vec<u8>)
    ensures
        final(out)@ == old(out)@ + error_json(*e),
{
    let ghost o = out@;
    push_error_key(out);
    push_int(e.code.code(), out);
    push_message_key(out);
    let q = quote(e.message.as_str());
    push_all(q.as_slice(), out);
    let ghost mid = out@;
    match &e.data {
        Some(d) => {
            push_data_key(out);
            push_str(d, out);
        },
        None => {
            assert(out@ =~= mid + Seq::<u8>::empty());
        },
    }
    push_close(out);
    assert(out@ =~= o + error_json(*e));
}

impl Response {
    /// The JSON text of the response.
    pub fn to_json(&self) -> (r: Vec<u8>)
        ensures
            r@ == response_json(*self),
    {
        let mut out: Vec<u8> = Vec::new();
        push_head(&mut out);
        match &self.outcome {
            Outcome::Result(t) => {
                push_result_key(&mut out);
                push_str(t, &mut out);
            },
            Outcome::Error(e) => push_error(e, &mut out),
        }
        push_id_key(&mut out);
        push_id(&self.id, &mut out);
        push_close(&mut out);
        assert(out@ =~= response_json(*self));
        out
    }
}

impl Outgoing {
    /// The JSON text of the message.
    pub fn to_json(&self) -> (r: Vec<u8>)
        ensures
            r@ == outgoing_json(*self),
    {
        match self {
            Outgoing::Response(resp) => resp.to_json(),
            Outgoing::Request(t) => {
                let mut out: Vec<u8> = Vec::new();
                push_str(t, &mut out);
                assert(out@ =~= outgoing_json(*self));
                out
            },
        }
    }

    /// The frame that carries the message on the wire.
    pub fn to_frame(&self) -> (r: Vec<u8>)
        ensures
            r@ == crate::codec::frame_of(outgoing_json(*self)),
    {
        let j = self.to_json();
        crate::codec::encode(j.as_slice())
    }
}

/// The frame written for an outgoing message splits, whatever bytes follow
/// it, into exactly the message's text and consumes exactly the frame; where
/// that text is JSON, decoding gives it back as a message.
pub proof fn lemma_outgoing_round_trip(m: Outgoing, rest: Seq<u8>)
    requires
        outgoing_json(m).len() <= usize::MAX,
    ensures
        split_spec(frame_of(outgoing_json(m)) + rest) == (FramedView::Frame {
            payload: outgoing_json(m),
            consumed: frame_of(outgoing_json(m)).len(),
        }),
        parses_as_json(outgoing_json(m)) ==> decode_spec(frame_of(outgoing_json(m)) + rest) == (DecodedView::Message {
            payload: outgoing_json(m),
            consumed: frame_of(outgoing_json(m)).len(),
        }),
{
    lemma_round_trip(outgoing_json(m), rest);
}

} // verus!
