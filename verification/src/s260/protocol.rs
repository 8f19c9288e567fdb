//! Framing of S260 JSON responses: `EE DD FF EE`, a two-byte big-endian
//! payload length, then the UTF-8 JSON payload. Module heartbeats may be
//! interleaved, so the decoder scans for the header.
use vstd::prelude::*;

use crate::aaec::{is_suffix, lemma_occurs_in_skip, occurs_in};
use crate::s260::client::ResponseFields;
use crate::s260::error;

verus! {

/// The response fields that `serde_json` reads from bytes: `None` when the
/// bytes are not one JSON document, else the `id` and `message` members when
/// they are strings and the `code` member when it is an integer that fits in
/// an `i64`.
pub uninterp spec fn json_response(bytes: Seq<u8>) -> Option<(Option<Seq<char>>, Option<i64>, Option<Seq<char>>)>;

/// Parses bytes with `serde_json::from_slice` into a `serde_json::Value` and
/// reads its `id` and `message` with `as_str` and its `code` with `as_i64`
/// (indexing a missing member, or a value that is no object, gives `null`).
/// Trusted: the result is the fields that `json_response` names for the
/// bytes, or an error exactly when it names none; the parser is a function of
/// the bytes alone. The error text is not described.
#[verifier::external_body]
fn parse_response(bytes: &[u8]) -> (r: std::result::Result<ResponseFields, String>)
    ensures
        match r {
            Ok(fields) => json_response(bytes@) == Some(fields@),
            Err(_) => json_response(bytes@) is None,
        },
{
    match serde_json::from_slice::<serde_json::Value>(bytes) {
        Ok(value) => Ok(ResponseFields {
            id: value["id"].as_str().map(str::to_owned),
            code: value["code"].as_i64(),
            message: value["message"].as_str().map(str::to_owned),
        }),
        Err(error) => Err(error.to_string()),
    }
}

/// A decoded response: the fields that decide its fate and the payload it
/// was read from, for the caller to read the rest of the document.
#[derive(Debug, Clone, PartialEq, Eq)]
pub struct Response {
    /// `id`, `code` and `message` as the JSON parser read them.
    pub fields: ResponseFields,
    /// The frame's JSON payload.
    pub payload: Vec<u8>,
}

/// Whether `m` is what the decoder hands out for the frame payload `p`: the
/// response read from it, with the payload itself, or a JSON error when the
/// payload is not one JSON document.
pub open spec fn message_of(p: Seq<u8>, m: std::result::Result<Response, error::Error>) -> bool {
    match m {
        Ok(r) => r.payload@ == p && json_response(p) == Some(r.fields@),
        Err(e) => json_response(p) is None && e is Json,
    }
}

/// The header bytes that start every S260 response frame.
pub open spec fn header_at_start(b: Seq<u8>) -> bool {
    b.len() >= 4 && b[0] == 0xee && b[1] == 0xdd && b[2] == 0xff && b[3] == 0xee
}

/// The payload length announced by a frame at the start of a buffer.
pub open spec fn announced_length(b: Seq<u8>) -> int {
    256 * (b[4] as int) + b[5] as int
}

/// The bytes of a response frame carrying `payload`.
pub open spec fn response_frame(payload: Seq<u8>) -> Seq<u8> {
    seq![0xeeu8, 0xddu8, 0xffu8, 0xeeu8, (payload.len() / 256) as u8, (payload.len() % 256) as u8]
        + payload
}

/// Decoding of a byte buffer into the payloads of the complete frames it
/// holds, and the bytes kept for later: bytes before a header are dropped one
/// at a time, an incomplete frame (or up to three trailing bytes that might
/// begin a header) is kept.
pub open spec fn decode_spec(b: Seq<u8>) -> (Seq<Seq<u8>>, Seq<u8>)
    decreases b.len(),
{
    if b.len() < 4 {
        (Seq::empty(), b)
    } else if !header_at_start(b) {
        decode_spec(b.drop_first())
    } else if b.len() < 6 {
        (Seq::empty(), b)
    } else if b.len() < 6 + announced_length(b) {
        (Seq::empty(), b)
    } else {
        let end = 6 + announced_length(b);
        let rest = decode_spec(b.skip(end));
        (seq![b.subrange(6, end)] + rest.0, rest.1)
    }
}

/// The views of a sequence of byte vectors.
pub open spec fn payload_views(payloads: Seq<Vec<u8>>) -> Seq<Seq<u8>> {
    payloads.map_values(|p: Vec<u8>| p@)
}

/// Decoding is insensitive to how the input is split.
pub proof fn lemma_decode_split(b: Seq<u8>, c: Seq<u8>)
    ensures
        decode_spec(b + c).0 == decode_spec(b).0 + decode_spec(decode_spec(b).1 + c).0,
        decode_spec(b + c).1 == decode_spec(decode_spec(b).1 + c).1,
    decreases b.len(),
{
    let bc = b + c;
    if b.len() < 4 {
        assert(decode_spec(b).0 + decode_spec(b + c).0 == decode_spec(b + c).0);
    } else if !header_at_start(b) {
        assert(bc.drop_first() == b.drop_first() + c);
        lemma_decode_split(b.drop_first(), c);
    } else if b.len() < 6 || b.len() < 6 + announced_length(b) {
        assert(decode_spec(b).0 + decode_spec(b + c).0 == decode_spec(b + c).0);
    } else {
        let end = 6 + announced_length(b);
        assert(bc[4] == b[4] && bc[5] == b[5]);
        assert(bc.subrange(6, end) == b.subrange(6, end));
        assert(bc.skip(end) == b.skip(end) + c);
        lemma_decode_split(b.skip(end), c);
        let r = decode_spec(b.skip(end));
        let t = decode_spec(r.1 + c);
        assert(seq![b.subrange(6, end)] + (r.0 + t.0) == (seq![b.subrange(6, end)] + r.0) + t.0);
    }
}

/// Feeding two chunks one after the other yields the same payloads, and
/// leaves the same bytes pending, as feeding their concatenation at once.
pub proof fn fragmentation_is_invisible(pending: Seq<u8>, first: Seq<u8>, second: Seq<u8>)
    ensures
        decode_spec(pending + first).0 + decode_spec(decode_spec(pending + first).1 + second).0
            == decode_spec(pending + (first + second)).0,
        decode_spec(decode_spec(pending + first).1 + second).1 == decode_spec(
            pending + (first + second),
        ).1,
{
    lemma_decode_split(pending + first, second);
    assert(pending + first + second == pending + (first + second));
}

proof fn lemma_decoded_payloads_occur(b: Seq<u8>)
    ensures
        forall|k: int|
            0 <= k < decode_spec(b).0.len() ==> #[trigger] decode_spec(b).0[k].len() <= 0xffff
                && occurs_in(b, response_frame(decode_spec(b).0[k])),
        is_suffix(decode_spec(b).1, b),
    decreases b.len(),
{
    if b.len() < 4 || (header_at_start(b) && (b.len() < 6 || b.len() < 6 + announced_length(b))) {
        assert(b.skip(0) == b);
    } else if !header_at_start(b) {
        let t = b.drop_first();
        lemma_decoded_payloads_occur(t);
        assert(t == b.skip(1));
        assert forall|k: int| 0 <= k < decode_spec(b).0.len() implies #[trigger] decode_spec(
            b,
        ).0[k].len() <= 0xffff && occurs_in(b, response_frame(decode_spec(b).0[k])) by {
            lemma_occurs_in_skip(b, 1, response_frame(decode_spec(t).0[k]));
        }
        assert(b.skip(b.len() - decode_spec(t).1.len()) == t.skip(t.len() - decode_spec(t).1.len()));
    } else {
        let end = 6 + announced_length(b);
        let p = b.subrange(6, end);
        let t = b.skip(end);
        lemma_decoded_payloads_occur(t);
        let run = response_frame(p);
        assert(p.len() / 256 == b[4] as int && p.len() % 256 == b[5] as int);
        assert(run.len() == end);
        assert(b.subrange(0int, 0int + run.len()) == run);
        assert forall|k: int| 0 <= k < decode_spec(b).0.len() implies #[trigger] decode_spec(
            b,
        ).0[k].len() <= 0xffff && occurs_in(b, response_frame(decode_spec(b).0[k])) by {
            if k > 0 {
                let q = decode_spec(t).0[k - 1];
                assert(decode_spec(b).0[k] == q);
                lemma_occurs_in_skip(b, end, response_frame(q));
            }
        }
        assert(b.skip(b.len() - decode_spec(t).1.len()) == t.skip(t.len() - decode_spec(t).1.len()));
    }
}

/// Only framed payloads are ever handed out: when the bytes pending in a
/// decoder are a suffix of everything fed to it so far (as they are for a new
/// decoder, and after every feed), each payload decoded from them and a new
/// chunk occurs, header and length included, as a contiguous run of all the
/// bytes fed, that chunk included, and what stays pending is again a suffix
/// of them.
pub proof fn payloads_are_framed_runs_of_the_input(fed: Seq<u8>, pending: Seq<u8>, chunk: Seq<u8>)
    requires
        is_suffix(pending, fed),
    ensures
        forall|k: int|
            0 <= k < decode_spec(pending + chunk).0.len() ==> occurs_in(
                fed + chunk,
                response_frame(#[trigger] decode_spec(pending + chunk).0[k]),
            ),
        is_suffix(decode_spec(pending + chunk).1, fed + chunk),
{
    let all = fed + chunk;
    let start = fed.len() - pending.len();
    assert(all.skip(start) == pending + chunk);
    lemma_decoded_payloads_occur(pending + chunk);
    assert forall|k: int| 0 <= k < decode_spec(pending + chunk).0.len() implies occurs_in(
        all,
        response_frame(#[trigger] decode_spec(pending + chunk).0[k]),
    ) by {
        lemma_occurs_in_skip(all, start, response_frame(decode_spec(pending + chunk).0[k]));
    }
    let q = decode_spec(pending + chunk).1;
    assert(all.skip(all.len() - q.len()) == (pending + chunk).skip((pending + chunk).len() - q.len()));
}

/// A response frame decoded on its own yields exactly its payload.
pub proof fn response_frame_roundtrip(payload: Seq<u8>)
    requires
        payload.len() <= 0xffff,
    ensures
        decode_spec(response_frame(payload)) == (seq![payload], Seq::<u8>::empty()),
{
    let b = response_frame(payload);
    assert(header_at_start(b));
    assert(announced_length(b) == payload.len());
    assert(b.subrange(6, 6 + announced_length(b)) == payload);
    assert(b.skip(6 + announced_length(b)) == Seq::<u8>::empty());
    assert(decode_spec(Seq::<u8>::empty()) == (Seq::<Seq<u8>>::empty(), Seq::<u8>::empty()));
    assert(seq![payload] + Seq::<Seq<u8>>::empty() == seq![payload]);
}

/// Incremental decoder for framed S260 responses and interleaved heartbeats.
#[derive(Debug)]
pub struct FrameDecoder {
    buffer: Vec<u8>,
}

impl FrameDecoder {
    /// The bytes held back until more input arrives.
    pub closed spec fn pending(&self) -> Seq<u8> {
        self.buffer@
    }

    /// Creates a decoder for the verified plaintext S260 transport.
    pub fn new() -> (d: Self)
        ensures
            d.pending() == Seq::<u8>::empty(),
    {
        FrameDecoder { buffer: Vec::new() }
    }

    /// Feeds a possibly fragmented chunk and returns the payloads of the
    /// complete frames, in order.
    pub fn feed_payloads(&mut self, chunk: &[u8]) -> (payloads: Vec<Vec<u8>>)
        ensures
            payload_views(payloads@) == decode_spec(old(self).pending() + chunk@).0,
            final(self).pending() == decode_spec(old(self).pending() + chunk@).1,
    {
        let mut data: Vec<u8> = Vec::new();
        let mut k: usize = 0;
        while k < self.buffer.len()
            invariant
                k <= self.buffer.len(),
                data@ == self.buffer@.take(k as int),
            decreases self.buffer.len() - k,
        {
            data.push(self.buffer[k]);
            k = k + 1;
        }
        let mut k: usize = 0;
        while k < chunk.len()
            invariant
                k <= chunk.len(),
                data@ == old(self).buffer@ + chunk@.take(k as int),
            decreases chunk.len() - k,
        {
            data.push(chunk[k]);
            k = k + 1;
        }
        assert(self.buffer@.take(self.buffer@.len() as int) == self.buffer@);
        assert(chunk@.take(chunk@.len() as int) == chunk@);
        let ghost whole = data@;
        let mut payloads: Vec<Vec<u8>> = Vec::new();
        let mut pos: usize = 0;
        assert(whole.skip(0) == whole);
        loop
            invariant
                data@ == whole,
                pos <= data.len(),
                decode_spec(whole) == (
                    payload_views(payloads@) + decode_spec(whole.skip(pos as int)).0,
                    decode_spec(whole.skip(pos as int)).1,
                ),
            ensures
                pos <= data.len(),
                decode_spec(whole) == (payload_views(payloads@), whole.skip(pos as int)),
            decreases data.len() - pos,
        {
            let ghost rest = whole.skip(pos as int);
            let avail = data.len() - pos;
            if avail < 4 {
                assert(payload_views(payloads@) + Seq::<Seq<u8>>::empty() == payload_views(
                    payloads@,
                ));
                break;
            }
            if !(data[pos] == 0xee && data[pos + 1] == 0xdd && data[pos + 2] == 0xff && data[pos
                + 3] == 0xee) {
                assert(rest.drop_first() == whole.skip(pos + 1));
                pos = pos + 1;
                continue;
            }
            if avail < 6 {
                assert(payload_views(payloads@) + Seq::<Seq<u8>>::empty() == payload_views(
                    payloads@,
                ));
                break;
            }
            let length = (data[pos + 4] as usize) * 256 + data[pos + 5] as usize;
            if avail - 6 < length {
                assert(payload_views(payloads@) + Seq::<Seq<u8>>::empty() == payload_views(
                    payloads@,
                ));
                break;
            }
            let end = 6 + length;
            let mut payload: Vec<u8> = Vec::new();
            let mut i: usize = pos + 6;
            while i < pos + end
                invariant
                    data@ == whole,
                    pos + end <= data.len(),
                    pos + 6 <= i <= pos + end,
                    payload@ == whole.subrange(pos + 6, i as int),
                decreases pos + end - i,
            {
                payload.push(data[i]);
                i = i + 1;
            }
            proof {
                assert(payload@ == rest.subrange(6, end as int));
                assert(rest.skip(end as int) == whole.skip(pos + end));
            }
            let ghost before = payloads@;
            let ghost p = payload@;
            payloads.push(payload);
            proof {
                assert(payload_views(payloads@) == payload_views(before).push(p));
                let tail = decode_spec(whole.skip(pos + end));
                assert(payload_views(before) + (seq![p] + tail.0) == payload_views(payloads@)
                    + tail.0);
            }
            pos = pos + end;
        }
        let mut kept: Vec<u8> = Vec::new();
        let mut i: usize = pos;
        while i < data.len()
            invariant
                data@ == whole,
                pos <= i <= data.len(),
                kept@ == whole.subrange(pos as int, i as int),
            decreases data.len() - i,
        {
            kept.push(data[i]);
            i = i + 1;
        }
        assert(kept@ == whole.skip(pos as int));
        self.buffer = kept;
        payloads
    }

    /// Feeds a possibly fragmented byte chunk and returns one message per
    /// complete frame, in order: the response read from its payload, or the
    /// JSON parser's error.
    pub fn feed(&mut self, chunk: &[u8]) -> (messages: Vec<std::result::Result<Response, error::Error>>)
        ensures
            messages@.len() == decode_spec(old(self).pending() + chunk@).0.len(),
            forall|i: int|
                0 <= i < messages@.len() ==> message_of(
                    decode_spec(old(self).pending() + chunk@).0[i],
                    #[trigger] messages@[i],
                ),
            final(self).pending() == decode_spec(old(self).pending() + chunk@).1,
    {
        let payloads = self.feed_payloads(chunk);
        let ghost views = payload_views(payloads@);
        let mut messages: Vec<std::result::Result<Response, error::Error>> = Vec::new();
        let mut i: usize = 0;
        while i < payloads.len()
            invariant
                i <= payloads.len(),
                messages@.len() == i,
                views == payload_views(payloads@),
                forall|j: int| 0 <= j < i ==> message_of(views[j], #[trigger] messages@[j]),
            decreases payloads.len() - i,
        {
            let payload = payloads[i].clone();
            assert(payload@ =~= views[i as int]);
            let message = match parse_response(payload.as_slice()) {
                Ok(fields) => Ok(Response { fields, payload }),
                Err(text) => Err(error::Error::Json(text)),
            };
            messages.push(message);
            i = i + 1;
        }
        messages
    }
}

} // verus!
