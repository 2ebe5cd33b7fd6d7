//! `Content-Length` framing of JSON messages on a byte stream.
use vstd::prelude::*;

verus! {

/// Whether serde_json reads `b` as one JSON value, with nothing but
/// whitespace after it.
pub uninterp spec fn parses_as_json(b: Seq<u8>) -> bool;

/// Relies on serde_json::from_slice into a `serde_json::Value`: whether it
/// succeeds depends on the bytes alone.
#[verifier::external_body]
fn is_json(b: &[u8]) -> (r: bool)
    ensures
        r == parses_as_json(b@),
{
    serde_json::from_slice::<serde_json::Value>(b).is_ok()
}

/// The bytes of `Content-Length: `.
pub open spec fn length_prefix() -> Seq<u8> {
    seq![67u8, 111, 110, 116, 101, 110, 116, 45, 76, 101, 110, 103, 116, 104, 58, 32]
}

/// The bytes `\r\n\r\n` that close a header.
pub open spec fn blank_line() -> Seq<u8> {
    seq![13u8, 10, 13, 10]
}

/// Whether a byte is an ASCII decimal digit.
pub open spec fn is_digit(c: u8) -> bool {
    48 <= c <= 57
}

/// The decimal digits of `n`, most significant first, without leading zeros.
pub open spec fn decimal(n: nat) -> Seq<u8>
    decreases n,
{
    if n < 10 {
        seq![(48 + n) as u8]
    } else {
        decimal(n / 10).push((48 + n % 10) as u8)
    }
}

/// The number that a sequence of decimal digits denotes.
pub open spec fn digits_value(s: Seq<u8>) -> nat
    decreases s.len(),
{
    if s.len() == 0 {
        0
    } else {
        digits_value(s.drop_last()) * 10 + (s.last() - 48) as nat
    }
}

/// Whether `s` is a non-empty run of decimal digits.
pub open spec fn all_digits(s: Seq<u8>) -> bool {
    s.len() > 0 && forall|i: int| 0 <= i < s.len() ==> is_digit(#[trigger] s[i])
}

/// The frame that carries `payload`.
pub open spec fn frame_of(payload: Seq<u8>) -> Seq<u8> {
    length_prefix() + decimal(payload.len()) + blank_line() + payload
}

/// Whether `b` holds `\r\n\r\n` at `i`.
pub open spec fn blank_at(b: Seq<u8>, i: int) -> bool {
    0 <= i && i + 4 <= b.len() && b[i] == 13 && b[i + 1] == 10 && b[i + 2] == 13 && b[i + 3]
        == 10
}

/// Whether the header of `b` ends at `i`: the first `\r\n\r\n` stands there.
pub open spec fn is_header_end(b: Seq<u8>, i: int) -> bool {
    blank_at(b, i) && forall|j: int| 0 <= j < i ==> !#[trigger] blank_at(b, j)
}

/// What the header says of the payload's length.
pub enum LengthField {
    Missing,
    Malformed,
    Value(nat),
}

/// What a header line says of the length: `None` for a line of another header.
pub open spec fn line_field(line: Seq<u8>) -> Option<LengthField> {
    if line.len() >= 16 && line.subrange(0, 16) == length_prefix() {
        let v = line.subrange(16, line.len() as int);
        if all_digits(v) {
            Some(LengthField::Value(digits_value(v)))
        } else {
            Some(LengthField::Malformed)
        }
    } else {
        None
    }
}

/// The first `Content-Length` line of `h` at or after the line that starts at
/// `start`, scanning from `k`; lines end with `\r\n`.
pub open spec fn scan(h: Seq<u8>, start: int, k: int) -> LengthField
    decreases h.len() - k,
{
    if k < start || start < 0 || k + 1 >= h.len() {
        LengthField::Missing
    } else if h[k] == 13 && h[k + 1] == 10 {
        match line_field(h.subrange(start, k)) {
            Some(f) => f,
            None => scan(h, k + 2, k + 2),
        }
    } else {
        scan(h, start, k + 1)
    }
}

/// How the front of a byte buffer splits into a frame.
pub enum FramedView {
    /// More bytes are needed.
    Incomplete,
    /// A complete frame; `consumed` bytes make it up.
    Frame { payload: Seq<u8>, consumed: nat },
    /// The header has no usable `Content-Length`; it is skipped.
    InvalidHeader { consumed: nat },
}

/// How the front of `b` splits into a frame.
pub open spec fn split_spec(b: Seq<u8>) -> FramedView {
    if exists|i: int| is_header_end(b, i) {
        let i = choose|i: int| is_header_end(b, i);
        let body = i + 4;
        match scan(b.subrange(0, i + 2), 0, 0) {
            LengthField::Value(n) => {
                if n > usize::MAX {
                    FramedView::InvalidHeader { consumed: body as nat }
                } else if b.len() < body + n {
                    FramedView::Incomplete
                } else {
                    FramedView::Frame {
                        payload: b.subrange(body, body + n),
                        consumed: (body + n) as nat,
                    }
                }
            },
            _ => FramedView::InvalidHeader { consumed: body as nat },
        }
    } else {
        FramedView::Incomplete
    }
}

/// The outcome of decoding the front of a byte buffer.
pub enum DecodedView {
    /// More bytes are needed.
    Incomplete,
    /// A frame with a JSON payload; `consumed` bytes make it up.
    Message { payload: Seq<u8>, consumed: nat },
    /// The header has no usable `Content-Length`; it is skipped.
    InvalidHeader { consumed: nat },
    /// The payload is not JSON; the frame is skipped.
    ParseError { consumed: nat },
}

/// What decoding the front of `b` gives: its frame, with the payload
/// checked to be JSON.
pub open spec fn decode_spec(b: Seq<u8>) -> DecodedView {
    match split_spec(b) {
        FramedView::Incomplete => DecodedView::Incomplete,
        FramedView::InvalidHeader { consumed } => DecodedView::InvalidHeader { consumed },
        FramedView::Frame { payload, consumed } => if parses_as_json(payload) {
            DecodedView::Message { payload, consumed }
        } else {
            DecodedView::ParseError { consumed }
        },
    }
}

/// How the front of a byte buffer splits into a frame.
#[derive(Debug)]
pub enum Framed {
    Incomplete,
    Frame { payload: Vec<u8>, consumed: usize },
    InvalidHeader { consumed: usize },
}

impl View for Framed {
    type V = FramedView;

    open spec fn view(&self) -> FramedView {
        match self {
            Framed::Incomplete => FramedView::Incomplete,
            Framed::Frame { payload, consumed } => FramedView::Frame {
                payload: payload@,
                consumed: *consumed as nat,
            },
            Framed::InvalidHeader { consumed } => FramedView::InvalidHeader {
                consumed: *consumed as nat,
            },
        }
    }
}

/// The outcome of decoding the front of a byte buffer.
#[derive(Debug)]
pub enum Decoded {
    Incomplete,
    Message { payload: Vec<u8>, consumed: usize },
    InvalidHeader { consumed: usize },
    ParseError { consumed: usize },
}

impl View for Decoded {
    type V = DecodedView;

    open spec fn view(&self) -> DecodedView {
        match self {
            Decoded::Incomplete => DecodedView::Incomplete,
            Decoded::Message { payload, consumed } => DecodedView::Message {
                payload: payload@,
                consumed: *consumed as nat,
            },
            Decoded::InvalidHeader { consumed } => DecodedView::InvalidHeader {
                consumed: *consumed as nat,
            },
            Decoded::ParseError { consumed } => DecodedView::ParseError {
                consumed: *consumed as nat,
            },
        }
    }
}

/// Appends the decimal digits of `n` to `out`.
pub(crate) fn push_decimal(n: u64, out: &mut Vec<u8>)
    ensures
        final(out)@ == old(out)@ + decimal(n as nat),
    decreases n,
{
    if n < 10 {
        out.push((48 + n) as u8);
        assert(old(out)@.push((48 + n) as u8) =~= old(out)@ + decimal(n as nat));
    } else {
        push_decimal(n / 10, out);
        out.push((48 + n % 10) as u8);
        assert(final(out)@ =~= old(out)@ + decimal(n as nat));
    }
}

/// Appends the bytes of `s` to `out`.
pub(crate) fn push_all(s: &[u8], out: &mut Vec<u8>)
    ensures
        final(out)@ == old(out)@ + s@,
{
    let mut i: usize = 0;
    while i < s.len()
        invariant
            i <= s@.len(),
            out@ == old(out)@ + s@.subrange(0, i as int),
        decreases s@.len() - i,
    {
        out.push(s[i]);
        i = i + 1;
        assert(out@ =~= old(out)@ + s@.subrange(0, i as int));
    }
    assert(s@.subrange(0, s@.len() as int) =~= s@);
}

/// The frame that carries `payload`: `Content-Length: <n>\r\n\r\n` and then
/// the `n` bytes of the payload.
pub fn encode(payload: &[u8]) -> (r: Vec<u8>)
    ensures
        r@ == frame_of(payload@),
{
    let mut out: Vec<u8> = vec![67u8, 111, 110, 116, 101, 110, 116, 45, 76, 101, 110, 103, 116, 104, 58, 32];
    assert(out@ =~= length_prefix());
    push_decimal(payload.len() as u64, &mut out);
    out.push(13);
    out.push(10);
    out.push(13);
    out.push(10);
    assert(out@ =~= length_prefix() + decimal(payload@.len()) + blank_line());
    push_all(payload, &mut out);
    out
}

/// A prefix of a run of digits denotes no more than the whole run.
proof fn lemma_digits_prefix_le(s: Seq<u8>, j: int)
    requires
        0 <= j <= s.len(),
    ensures
        digits_value(s.subrange(0, j)) <= digits_value(s),
    decreases s.len(),
{
    if j == s.len() {
        assert(s.subrange(0, j) =~= s);
    } else {
        assert(s.drop_last().subrange(0, j) =~= s.subrange(0, j));
        lemma_digits_prefix_le(s.drop_last(), j);
    }
}

/// Where the first `\r\n\r\n` of `b` stands, if anywhere.
fn find_header_end(b: &[u8]) -> (r: Option<usize>)
    ensures
        match r {
            Some(i) => is_header_end(b@, i as int),
            None => forall|i: int| !#[trigger] blank_at(b@, i),
        },
{
    let mut i: usize = 0;
    while i < b.len() && b.len() - i >= 4
        invariant
            i <= b@.len(),
            forall|j: int| 0 <= j < i ==> !#[trigger] blank_at(b@, j),
        decreases b@.len() - i,
    {
        if b[i] == 13 && b[i + 1] == 10 && b[i + 2] == 13 && b[i + 3] == 10 {
            return Some(i);
        }
        i = i + 1;
    }
    None
}

/// What the line `b[start..end]` says of the length: `None` for a line of
/// another header, `Some(None)` for a malformed value or one beyond `usize`.
fn line_length(b: &[u8], start: usize, end: usize) -> (r: Option<Option<usize>>)
    requires
        start <= end <= b@.len(),
    ensures
        ({
            let f = line_field(b@.subrange(start as int, end as int));
            match r {
                None => f is None,
                Some(Some(n)) => f == Some(LengthField::Value(n as nat)),
                Some(None) => f is Some && !(f matches Some(LengthField::Value(v)) && v
                    <= usize::MAX),
            }
        }),
{
    let ghost line = b@.subrange(start as int, end as int);
    let prefix: Vec<u8> = vec![67u8, 111, 110, 116, 101, 110, 116, 45, 76, 101, 110, 103, 116, 104, 58, 32];
    assert(prefix@ =~= length_prefix());
    if end - start < 16 {
        return None;
    }
    let mut j: usize = 0;
    while j < 16
        invariant
            j <= 16,
            start + 16 <= end <= b@.len(),
            line == b@.subrange(start as int, end as int),
            prefix@ == length_prefix(),
            forall|q: int| 0 <= q < j ==> line[q] == length_prefix()[q],
        decreases 16 - j,
    {
        if b[start + j] != prefix[j] {
            assert(line.subrange(0, 16)[j as int] != length_prefix()[j as int]);
            return None;
        }
        j = j + 1;
    }
    assert(line.subrange(0, 16) =~= length_prefix());
    let ghost v = line.subrange(16, line.len() as int);
    if end - start == 16 {
        assert(v.len() == 0);
        assert(!all_digits(v));
        return Some(None);
    }
    let mut acc: usize = 0;
    let mut k: usize = start + 16;
    while k < end
        invariant
            start + 16 <= k <= end <= b@.len(),
            line == b@.subrange(start as int, end as int),
            v == line.subrange(16, line.len() as int),
            line.len() >= 16,
            line.subrange(0, 16) == length_prefix(),
            forall|q: int| 0 <= q < k - start - 16 ==> is_digit(#[trigger] v[q]),
            acc as nat == digits_value(v.subrange(0, k - start - 16)),
        decreases end - k,
    {
        let c = b[k];
        let ghost idx = k - start - 16;
        assert(v[idx] == b@[k as int]);
        if c < 48 || c > 57 {
            assert(!is_digit(v[idx]));
            assert(!all_digits(v));
            return Some(None);
        }
        assert(v.subrange(0, idx + 1).drop_last() =~= v.subrange(0, idx));
        let d = (c - 48) as usize;
        if acc > usize::MAX / 10 || acc * 10 > usize::MAX - d {
            assert(acc * 10 + d > usize::MAX) by (nonlinear_arith)
                requires
                    acc > usize::MAX / 10 || acc * 10 > usize::MAX - d,
                    d <= 9,
            ;
            proof {
                if all_digits(v) {
                    lemma_digits_prefix_le(v, idx + 1);
                }
            }
            return Some(None);
        }
        acc = acc * 10 + d;
        k = k + 1;
    }
    assert(v.subrange(0, v.len() as int) =~= v);
    Some(Some(acc))
}

/// The length that the header `b[0..lim]` gives, if it gives one that fits
/// in `usize`.
fn header_length(b: &[u8], lim: usize) -> (r: Option<usize>)
    requires
        lim <= b@.len(),
    ensures
        ({
            let f = scan(b@.subrange(0, lim as int), 0, 0);
            match r {
                Some(n) => f == LengthField::Value(n as nat),
                None => !(f matches LengthField::Value(v) && v <= usize::MAX),
            }
        }),
{
    let ghost h = b@.subrange(0, lim as int);
    let mut start: usize = 0;
    let mut k: usize = 0;
    while k < lim && lim - k > 1
        invariant
            start <= k <= lim <= b@.len(),
            h == b@.subrange(0, lim as int),
            scan(h, start as int, k as int) == scan(h, 0, 0),
        decreases lim - k,
    {
        if b[k] == 13 && b[k + 1] == 10 {
            assert(h.subrange(start as int, k as int) =~= b@.subrange(start as int, k as int));
            match line_length(b, start, k) {
                None => {
                    start = k + 2;
                    k = k + 2;
                },
                Some(r) => {
                    return r;
                },
            }
        } else {
            k = k + 1;
        }
    }
    None
}

/// Copies `b[from..from + n]`.
fn copy_range(b: &[u8], from: usize, n: usize) -> (r: Vec<u8>)
    requires
        from + n <= b@.len(),
    ensures
        r@ == b@.subrange(from as int, from + n),
{
    let len = b.len();
    let mut out: Vec<u8> = Vec::new();
    let mut i: usize = 0;
    while i < n
        invariant
            i <= n,
            from + n <= len,
            len == b@.len(),
            out@ == b@.subrange(from as int, from + i),
        decreases n - i,
    {
        out.push(b[from + i]);
        i = i + 1;
        assert(out@ =~= b@.subrange(from as int, from + i));
    }
    out
}

/// Splits the frame at the front of `buf`: its payload and length once it
/// is complete, a request for more bytes, or the number of bytes to skip
/// past a header without a usable `Content-Length`.
pub fn split_frame(buf: &[u8]) -> (r: Framed)
    ensures
        r@ == split_spec(buf@),
{
    match find_header_end(buf) {
        None => {
            assert(!exists|i: int| is_header_end(buf@, i));
            Framed::Incomplete
        },
        Some(i) => {
            assert(is_header_end(buf@, i as int));
            let ghost c = choose|i: int| is_header_end(buf@, i);
            assert(c == i) by {
                if c < i {
                    assert(blank_at(buf@, c));
                } else if c > i {
                    assert(blank_at(buf@, i as int));
                }
            }
            let len = buf.len();
            assert(i + 4 <= len);
            let body = i + 4;
            match header_length(buf, i + 2) {
                None => Framed::InvalidHeader { consumed: body },
                Some(n) => {
                    if buf.len() - body < n {
                        Framed::Incomplete
                    } else {
                        let payload = copy_range(buf, body, n);
                        Framed::Frame { payload, consumed: body + n }
                    }
                },
            }
        },
    }
}

/// Decodes the frame at the front of `buf`: the payload of a complete frame
/// whose payload is JSON, a request for more bytes, or the number of bytes to
/// skip past a bad header or a payload that is not JSON.
pub fn decode(buf: &[u8]) -> (r: Decoded)
    ensures
        r@ == decode_spec(buf@),
        r matches Decoded::ParseError { consumed } ==> 4 <= consumed <= buf@.len(),
        r matches Decoded::InvalidHeader { consumed } ==> 4 <= consumed <= buf@.len(),
{
    match split_frame(buf) {
        Framed::Incomplete => Decoded::Incomplete,
        Framed::InvalidHeader { consumed } => Decoded::InvalidHeader { consumed },
        Framed::Frame { payload, consumed } => {
            if is_json(payload.as_slice()) {
                Decoded::Message { payload, consumed }
            } else {
                Decoded::ParseError { consumed }
            }
        },
    }
}

/// The decimal form of `n` is a non-empty run of digits that denotes `n`.
proof fn lemma_decimal(n: nat)
    ensures
        all_digits(decimal(n)),
        digits_value(decimal(n)) == n,
    decreases n,
{
    if n < 10 {
        assert(decimal(n).drop_last() =~= Seq::<u8>::empty());
        assert(digits_value(Seq::<u8>::empty()) == 0);
    } else {
        lemma_decimal(n / 10);
        assert(decimal(n).drop_last() =~= decimal(n / 10));
        assert(decimal(n).last() == (48 + n % 10) as u8);
        assert(n == (n / 10) * 10 + n % 10) by (nonlinear_arith);
    }
}

/// Scanning a header whose first line is `Content-Length: <digits>` finds
/// the digits' value, from any point within that line.
proof fn lemma_scan_first_line(h: Seq<u8>, k: int, i: int)
    requires
        16 <= i,
        0 <= k <= i,
        h.len() == i + 2,
        h[i] == 13,
        h[i + 1] == 10,
        forall|j: int| 0 <= j < i ==> #[trigger] h[j] != 13,
        line_field(h.subrange(0, i)) is Some,
    ensures
        scan(h, 0, k) == line_field(h.subrange(0, i))->Some_0,
    decreases i - k,
{
    if k < i {
        lemma_scan_first_line(h, k + 1, i);
    }
}

/// Splitting the frame that carries a payload, whatever bytes follow it,
/// gives back that payload and consumes exactly the frame; where the payload
/// is JSON, decoding does the same.
pub proof fn lemma_round_trip(payload: Seq<u8>, rest: Seq<u8>)
    requires
        payload.len() <= usize::MAX,
    ensures
        split_spec(frame_of(payload) + rest) == (FramedView::Frame {
            payload,
            consumed: frame_of(payload).len(),
        }),
        parses_as_json(payload) ==> decode_spec(frame_of(payload) + rest) == (DecodedView::Message {
            payload,
            consumed: frame_of(payload).len(),
        }),
{
    let n: nat = payload.len();
    let d = decimal(n);
    lemma_decimal(n);
    let b = frame_of(payload) + rest;
    let i: int = 16 + d.len() as int;
    assert(b.subrange(0, 16) =~= length_prefix());
    assert(b.subrange(16, i) =~= d);
    assert forall|j: int| 0 <= j < i implies #[trigger] b[j] != 13 by {
        if j < 16 {
            assert(b[j] == b.subrange(0, 16)[j]);
        } else {
            assert(b[j] == d[j - 16]);
            assert(is_digit(d[j - 16]));
        }
    }
    assert(b[i] == 13 && b[i + 1] == 10 && b[i + 2] == 13 && b[i + 3] == 10);
    assert(is_header_end(b, i));
    let c = choose|c: int| is_header_end(b, c);
    assert(c == i) by {
        if c < i {
            assert(blank_at(b, c));
        } else if c > i {
            assert(blank_at(b, i));
        }
    }
    let h = b.subrange(0, i + 2);
    assert(h.subrange(0, i) =~= length_prefix() + d);
    assert((length_prefix() + d).subrange(0, 16) =~= length_prefix());
    assert((length_prefix() + d).subrange(16, i) =~= d);
    assert(line_field(h.subrange(0, i)) == Some(LengthField::Value(n)));
    lemma_scan_first_line(h, 0, i);
    assert(b.subrange(i + 4, i + 4 + n as int) =~= payload);
}

} // verus!
