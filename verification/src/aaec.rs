//! Framing of the EDIFIER `AA EC` request and `BB EC` response protocol.
//!
//! A frame is a two-byte magic, a little-endian command, a one-byte payload
//! length, the payload, and a checksum byte equal to the sum of every earlier
//! byte of the frame modulo 256.
use vstd::prelude::*;

verus! {

/// Magic prefix used by client request frames.
pub const REQUEST_MAGIC: [u8; 2] = [0xaa, 0xec];

/// Magic prefix used by speaker response and event frames.
pub const RESPONSE_MAGIC: [u8; 2] = [0xbb, 0xec];

/// Command used by the module heartbeat observed on supported devices.
pub const HEARTBEAT_COMMAND: u16 = 0x003f;

/// The mathematical content of a decoded frame.
pub struct SpecFrame {
    /// Command identifier.
    pub command: u16,
    /// Payload bytes.
    pub payload: Seq<u8>,
}

/// A decoded binary response or event frame.
#[derive(Debug, Clone, PartialEq, Eq)]
pub struct Frame {
    /// Little-endian command identifier.
    pub command: u16,
    /// Command-specific payload bytes.
    pub payload: Vec<u8>,
}

impl View for Frame {
    type V = SpecFrame;

    open spec fn view(&self) -> SpecFrame {
        SpecFrame { command: self.command, payload: self.payload@ }
    }
}

/// The views of a sequence of frames.
pub open spec fn frame_views(frames: Seq<Frame>) -> Seq<SpecFrame> {
    frames.map_values(|f: Frame| f@)
}

/// Sum of all bytes, as a natural number.
pub open spec fn byte_sum(bytes: Seq<u8>) -> nat
    decreases bytes.len(),
{
    if bytes.len() == 0 {
        0
    } else {
        byte_sum(bytes.drop_last()) + bytes.last() as nat
    }
}

/// The frame checksum: the sum of the bytes modulo 256.
pub open spec fn checksum_spec(bytes: Seq<u8>) -> u8 {
    (byte_sum(bytes) % 256) as u8
}

/// The two little-endian bytes of a command.
pub open spec fn command_bytes(command: u16) -> Seq<u8> {
    seq![(command % 256) as u8, (command / 256) as u8]
}

/// The bytes of a frame with the given magic, command and payload.
pub open spec fn frame_bytes(magic: Seq<u8>, command: u16, payload: Seq<u8>) -> Seq<u8> {
    let body = magic + command_bytes(command) + seq![payload.len() as u8] + payload;
    body.push(checksum_spec(body))
}

/// The response magic as a sequence.
pub open spec fn response_magic() -> Seq<u8> {
    seq![0xbbu8, 0xecu8]
}

/// The request magic as a sequence.
pub open spec fn request_magic() -> Seq<u8> {
    seq![0xaau8, 0xecu8]
}

/// The total length of the candidate frame that starts a buffer.
pub open spec fn candidate_end(b: Seq<u8>) -> int {
    6 + b[4] as int
}

/// The command of the candidate frame that starts a buffer.
pub open spec fn candidate_command(b: Seq<u8>) -> u16 {
    (b[2] as int + 256 * (b[3] as int)) as u16
}

/// Decoding of a byte buffer: the frames found and the bytes kept for later.
///
/// Bytes before a `BB EC` magic are dropped one at a time; a candidate whose
/// checksum does not match loses its first byte so that a later frame can
/// still be found; an incomplete candidate (or a lone last byte) is kept.
pub open spec fn decode_spec(b: Seq<u8>) -> (Seq<SpecFrame>, Seq<u8>)
    decreases b.len(),
{
    if b.len() < 2 {
        (Seq::empty(), b)
    } else if !(b[0] == 0xbb && b[1] == 0xec) {
        decode_spec(b.drop_first())
    } else if b.len() < 6 {
        (Seq::empty(), b)
    } else if b.len() < candidate_end(b) {
        (Seq::empty(), b)
    } else if checksum_spec(b.take(candidate_end(b) - 1)) != b[candidate_end(b) - 1] {
        decode_spec(b.drop_first())
    } else {
        let frame = SpecFrame {
            command: candidate_command(b),
            payload: b.subrange(5, candidate_end(b) - 1),
        };
        let rest = decode_spec(b.skip(candidate_end(b)));
        (seq![frame] + rest.0, rest.1)
    }
}


/// Decoding is insensitive to how the input is split: decoding `b + c` gives
/// the frames of `b`, then the frames of what `b` left pending followed by `c`.
pub proof fn lemma_decode_split(b: Seq<u8>, c: Seq<u8>)
    ensures
        decode_spec(b + c).0 == decode_spec(b).0 + decode_spec(decode_spec(b).1 + c).0,
        decode_spec(b + c).1 == decode_spec(decode_spec(b).1 + c).1,
    decreases b.len(),
{
    let bc = b + c;
    if b.len() < 2 {
        assert(decode_spec(b).0 + decode_spec(b + c).0 == decode_spec(b + c).0);
    } else if !(b[0] == 0xbb && b[1] == 0xec) {
        assert(bc.drop_first() == b.drop_first() + c);
        lemma_decode_split(b.drop_first(), c);
    } else if b.len() < 6 {
        assert(decode_spec(b).0 + decode_spec(b + c).0 == decode_spec(b + c).0);
    } else if b.len() < candidate_end(b) {
        assert(decode_spec(b).0 + decode_spec(b + c).0 == decode_spec(b + c).0);
    } else {
        let end = candidate_end(b);
        assert(bc[4] == b[4]);
        assert(bc.take(end - 1) == b.take(end - 1));
        assert(bc[end - 1] == b[end - 1]);
        if checksum_spec(b.take(end - 1)) != b[end - 1] {
            assert(bc.drop_first() == b.drop_first() + c);
            lemma_decode_split(b.drop_first(), c);
        } else {
            assert(bc.subrange(5, end - 1) == b.subrange(5, end - 1));
            assert(bc.skip(end) == b.skip(end) + c);
            lemma_decode_split(b.skip(end), c);
            let f = SpecFrame { command: candidate_command(b), payload: b.subrange(5, end - 1) };
            let r = decode_spec(b.skip(end));
            let t = decode_spec(r.1 + c);
            assert(seq![f] + (r.0 + t.0) == (seq![f] + r.0) + t.0);
        }
    }
}

/// Feeding a decoder two chunks one after the other yields the same frames,
/// and leaves the same bytes pending, as feeding their concatenation at once.
pub proof fn fragmentation_is_invisible(pending: Seq<u8>, first: Seq<u8>, second: Seq<u8>)
    ensures
        decode_spec(pending + first).0 + decode_spec(decode_spec(pending + first).1 + second).0
            == decode_spec(pending + (first + second)).0,
        decode_spec(decode_spec(pending + first).1 + second).1 == decode_spec(
            pending + (first + second),
        ).1,
{
    lemma_decode_split(pending + first, second);
    assert(pending + first + second == pending + (first + second));
}

/// Whether `run` occurs as a contiguous run of `bytes`.
pub open spec fn occurs_in(bytes: Seq<u8>, run: Seq<u8>) -> bool {
    exists|i: int|
        0 <= i && i + run.len() <= bytes.len() && #[trigger] bytes.subrange(i, i + run.len()) == run
}

/// Whether `s` is a suffix of `bytes`.
pub open spec fn is_suffix(s: Seq<u8>, bytes: Seq<u8>) -> bool {
    s.len() <= bytes.len() && bytes.skip(bytes.len() - s.len()) == s
}

/// Whether the response frame `f` occurs in `bytes` exactly as it goes on the
/// wire: magic, command, length, payload and a matching checksum.
pub open spec fn frame_occurs_in(bytes: Seq<u8>, f: SpecFrame) -> bool {
    f.payload.len() <= 255 && occurs_in(bytes, frame_bytes(response_magic(), f.command, f.payload))
}

/// A run of a suffix of `b` is a run of `b`.
pub(crate) proof fn lemma_occurs_in_skip(b: Seq<u8>, k: int, run: Seq<u8>)
    requires
        0 <= k <= b.len(),
        occurs_in(b.skip(k), run),
    ensures
        occurs_in(b, run),
{
    let t = b.skip(k);
    let i = choose|i: int|
        0 <= i && i + run.len() <= t.len() && #[trigger] t.subrange(i, i + run.len()) == run;
    assert(b.subrange(i + k, i + k + run.len()) == t.subrange(i, i + run.len()));
}

/// Every frame that decoding a buffer yields occurs in the buffer as a
/// well-formed, checksum-valid response frame, and the bytes kept pending are
/// a suffix of the buffer.
proof fn lemma_decoded_frames_occur(b: Seq<u8>)
    ensures
        forall|k: int|
            0 <= k < decode_spec(b).0.len() ==> frame_occurs_in(b, #[trigger] decode_spec(b).0[k]),
        is_suffix(decode_spec(b).1, b),
    decreases b.len(),
{
    if b.len() < 2 || ((b[0] == 0xbb && b[1] == 0xec) && (b.len() < 6 || b.len() < candidate_end(b))) {
        assert(b.skip(0) == b);
    } else if !(b[0] == 0xbb && b[1] == 0xec) || checksum_spec(b.take(candidate_end(b) - 1))
        != b[candidate_end(b) - 1] {
        let t = b.drop_first();
        lemma_decoded_frames_occur(t);
        assert(t == b.skip(1));
        assert forall|k: int| 0 <= k < decode_spec(b).0.len() implies frame_occurs_in(
            b,
            #[trigger] decode_spec(b).0[k],
        ) by {
            let f = decode_spec(t).0[k];
            lemma_occurs_in_skip(b, 1, frame_bytes(response_magic(), f.command, f.payload));
        }
        assert(b.skip(b.len() - decode_spec(t).1.len()) == t.skip(t.len() - decode_spec(t).1.len()));
    } else {
        let end = candidate_end(b);
        let f = SpecFrame { command: candidate_command(b), payload: b.subrange(5, end - 1) };
        let t = b.skip(end);
        lemma_decoded_frames_occur(t);
        let body = response_magic() + command_bytes(f.command) + seq![f.payload.len() as u8]
            + f.payload;
        assert(f.payload.len() == b[4]);
        assert(command_bytes(f.command) == seq![b[2], b[3]]);
        assert(body == b.take(end - 1));
        let run = frame_bytes(response_magic(), f.command, f.payload);
        assert(run.len() == end);
        assert(b.subrange(0int, 0int + run.len()) == run);
        assert(frame_occurs_in(b, f));
        assert forall|k: int| 0 <= k < decode_spec(b).0.len() implies frame_occurs_in(
            b,
            #[trigger] decode_spec(b).0[k],
        ) by {
            if k > 0 {
                let g = decode_spec(t).0[k - 1];
                assert(decode_spec(b).0[k] == g);
                lemma_occurs_in_skip(b, end, frame_bytes(response_magic(), g.command, g.payload));
            }
        }
        assert(b.skip(b.len() - decode_spec(t).1.len()) == t.skip(t.len() - decode_spec(t).1.len()));
    }
}

/// Only checksum-valid frames are ever returned: when the bytes pending in a
/// decoder are a suffix of everything fed to it so far (as they are for a new
/// decoder, and after every `feed`), each frame decoded from them and a new
/// chunk occurs, magic to checksum, as a contiguous run of all the bytes fed,
/// that chunk included, and what stays pending is again a suffix of them.
pub proof fn frames_are_checksummed_runs_of_the_input(
    fed: Seq<u8>,
    pending: Seq<u8>,
    chunk: Seq<u8>,
)
    requires
        is_suffix(pending, fed),
    ensures
        forall|k: int|
            0 <= k < decode_spec(pending + chunk).0.len() ==> frame_occurs_in(
                fed + chunk,
                #[trigger] decode_spec(pending + chunk).0[k],
            ),
        is_suffix(decode_spec(pending + chunk).1, fed + chunk),
{
    let all = fed + chunk;
    let start = fed.len() - pending.len();
    assert(all.skip(start) == pending + chunk);
    lemma_decoded_frames_occur(pending + chunk);
    assert forall|k: int| 0 <= k < decode_spec(pending + chunk).0.len() implies frame_occurs_in(
        all,
        #[trigger] decode_spec(pending + chunk).0[k],
    ) by {
        let f = decode_spec(pending + chunk).0[k];
        lemma_occurs_in_skip(all, start, frame_bytes(response_magic(), f.command, f.payload));
    }
    let p = decode_spec(pending + chunk).1;
    assert(all.skip(all.len() - p.len()) == (pending + chunk).skip((pending + chunk).len() - p.len()));
}

/// A well-formed response frame, decoded on its own, yields exactly that frame
/// and leaves nothing pending.
pub proof fn response_frame_roundtrip(command: u16, payload: Seq<u8>)
    requires
        payload.len() <= 255,
    ensures
        decode_spec(frame_bytes(response_magic(), command, payload)) == (
            seq![SpecFrame { command, payload }],
            Seq::<u8>::empty(),
        ),
{
    let b = frame_bytes(response_magic(), command, payload);
    let body = response_magic() + command_bytes(command) + seq![payload.len() as u8] + payload;
    assert(b.len() == 6 + payload.len());
    assert(b[0] == 0xbb && b[1] == 0xec);
    assert(b[4] == payload.len() as u8);
    assert(candidate_end(b) == b.len());
    assert(b.take(candidate_end(b) - 1) == body);
    assert(b.subrange(5, candidate_end(b) - 1) == payload);
    assert(candidate_command(b) == command);
    assert(b.skip(candidate_end(b)) == Seq::<u8>::empty());
    assert(decode_spec(Seq::<u8>::empty()) == (Seq::<SpecFrame>::empty(), Seq::<u8>::empty()));
    assert(seq![SpecFrame { command, payload }] + Seq::<SpecFrame>::empty() == seq![SpecFrame { command, payload }]);
}

impl Frame {
    /// Returns whether this frame is a module heartbeat.
    pub fn is_heartbeat(&self) -> (r: bool)
        ensures
            r == (self.command == HEARTBEAT_COMMAND),
    {
        self.command == HEARTBEAT_COMMAND
    }
}

/// Incremental decoder for fragmented `BB EC` frames and interleaved garbage.
#[derive(Debug)]
pub struct FrameDecoder {
    buffer: Vec<u8>,
}

impl FrameDecoder {
    /// The bytes held back until more input arrives.
    pub closed spec fn pending(&self) -> Seq<u8> {
        self.buffer@
    }

    /// Creates an empty decoder.
    pub fn new() -> (d: Self)
        ensures
            d.pending() == Seq::<u8>::empty(),
    {
        FrameDecoder { buffer: Vec::new() }
    }

    /// Feeds bytes and returns every complete, checksum-validated frame.
    ///
    /// Corrupt candidates are skipped one byte at a time so a later valid frame
    /// in the same stream can still be recovered.
    pub fn feed(&mut self, chunk: &[u8]) -> (frames: Vec<Frame>)
        ensures
            frame_views(frames@) == decode_spec(old(self).pending() + chunk@).0,
            final(self).pending() == decode_spec(old(self).pending() + chunk@).1,
    {
        let mut data: Vec<u8> = Vec::new();
        let mut k: usize = 0;
        while k < self.buffer.len()
            invariant
                k <= self.buffer.len(),
                data@ == self.buffer@.take(k as int),
            decreases self.buffer.len() - k,
        {
            data.push(self.buffer[k]);
            k = k + 1;
        }
        let mut k: usize = 0;
        while k < chunk.len()
            invariant
                k <= chunk.len(),
                data@ == old(self).buffer@ + chunk@.take(k as int),
            decreases chunk.len() - k,
        {
            data.push(chunk[k]);
            k = k + 1;
        }
        assert(self.buffer@.take(self.buffer@.len() as int) == self.buffer@);
        assert(chunk@.take(chunk@.len() as int) == chunk@);
        let ghost whole = data@;
        let mut frames: Vec<Frame> = Vec::new();
        let mut pos: usize = 0;
        assert(whole.skip(0) == whole);
        loop
            invariant
                data@ == whole,
                pos <= data.len(),
                decode_spec(whole) == (
                    frame_views(frames@) + decode_spec(whole.skip(pos as int)).0,
                    decode_spec(whole.skip(pos as int)).1,
                ),
            ensures
                pos <= data.len(),
                decode_spec(whole) == (frame_views(frames@), whole.skip(pos as int)),
            decreases data.len() - pos,
        {
            let ghost rest = whole.skip(pos as int);
            let avail = data.len() - pos;
            if avail < 2 {
                assert(frame_views(frames@) + Seq::<SpecFrame>::empty() == frame_views(frames@));
                break;
            }
            if !(data[pos] == 0xbb && data[pos + 1] == 0xec) {
                assert(rest.drop_first() == whole.skip(pos + 1));
                pos = pos + 1;
                continue;
            }
            if avail < 6 {
                assert(frame_views(frames@) + Seq::<SpecFrame>::empty() == frame_views(frames@));
                break;
            }
            let length = data[pos + 4] as usize;
            let end = 6 + length;
            if avail < end {
                assert(frame_views(frames@) + Seq::<SpecFrame>::empty() == frame_views(frames@));
                break;
            }
            let expected = checksum_range(&data, pos, pos + end - 1);
            assert(whole.subrange(pos as int, pos + end - 1) == rest.take(end - 1));
            if expected != data[pos + end - 1] {
                assert(rest.drop_first() == whole.skip(pos + 1));
                pos = pos + 1;
                continue;
            }
            let mut payload: Vec<u8> = Vec::new();
            let mut i: usize = pos + 5;
            while i < pos + end - 1
                invariant
                    data@ == whole,
                    pos + end <= data.len(),
                    pos + 5 <= i <= pos + end - 1,
                    payload@ == whole.subrange(pos + 5, i as int),
                decreases pos + end - 1 - i,
            {
                payload.push(data[i]);
                i = i + 1;
            }
            let command = data[pos + 2] as u16 + (data[pos + 3] as u16) * 256;
            let frame = Frame { command, payload };
            proof {
                assert(frame@.payload == rest.subrange(5, end - 1));
                assert(frame@.command == candidate_command(rest));
                assert(rest.skip(end as int) == whole.skip(pos + end));
                let tail = decode_spec(whole.skip(pos + end));
                assert(decode_spec(rest) == (seq![frame@] + tail.0, tail.1));
            }
            let ghost before = frames@;
            frames.push(frame);
            proof {
                assert(frames@ == before.push(frame));
                assert(frame_views(frames@) == frame_views(before).push(frame@));
                let tail = decode_spec(whole.skip(pos + end));
                assert(frame_views(before) + (seq![frame@] + tail.0) == frame_views(frames@)
                    + tail.0);
            }
            pos = pos + end;
        }
        let mut kept: Vec<u8> = Vec::new();
        let mut i: usize = pos;
        while i < data.len()
            invariant
                data@ == whole,
                pos <= i <= data.len(),
                kept@ == whole.subrange(pos as int, i as int),
            decreases data.len() - i,
        {
            kept.push(data[i]);
            i = i + 1;
        }
        assert(kept@ == whole.skip(pos as int));
        self.buffer = kept;
        frames
    }
}

/// The checksum of `data[start..end]`.
fn checksum_range(data: &Vec<u8>, start: usize, end: usize) -> (sum: u8)
    requires
        start <= end <= data.len(),
    ensures
        sum == checksum_spec(data@.subrange(start as int, end as int)),
{
    let mut sum: u8 = 0;
    let mut i: usize = start;
    while i < end
        invariant
            start <= i <= end <= data.len(),
            sum == checksum_spec(data@.subrange(start as int, i as int)),
        decreases end - i,
    {
        proof {
            let s = data@.subrange(start as int, i + 1);
            assert(s.drop_last() == data@.subrange(start as int, i as int));
        }
        sum = sum.wrapping_add(data[i]);
        i = i + 1;
    }
    sum
}

/// The checksum of a byte slice.
pub fn checksum(bytes: &[u8]) -> (sum: u8)
    ensures
        sum == checksum_spec(bytes@),
{
    let mut sum: u8 = 0;
    let mut i: usize = 0;
    while i < bytes.len()
        invariant
            i <= bytes.len(),
            sum == checksum_spec(bytes@.take(i as int)),
        decreases bytes.len() - i,
    {
        proof {
            assert(bytes@.take(i + 1).drop_last() == bytes@.take(i as int));
        }
        sum = sum.wrapping_add(bytes[i]);
        i = i + 1;
    }
    assert(bytes@.take(bytes@.len() as int) == bytes@);
    sum
}

/// Binary framing failure.
#[derive(Debug, Clone, PartialEq, Eq)]
pub enum Error {
    /// Payload cannot fit in the protocol's one-byte length field.
    PayloadTooLarge(usize),
}

/// Convenience result type for binary framing.
pub type Result<T> = std::result::Result<T, Error>;

/// Encodes a checksum-protected `AA EC` request frame.
pub fn encode_request(command: u16, payload: &[u8]) -> (r: Result<Vec<u8>>)
    ensures
        match r {
            Ok(frame) => payload@.len() <= 255 && frame@ == frame_bytes(
                request_magic(),
                command,
                payload@,
            ),
            Err(Error::PayloadTooLarge(n)) => payload@.len() > 255 && n == payload@.len(),
        },
{
    if payload.len() > 255 {
        return Err(Error::PayloadTooLarge(payload.len()));
    }
    let mut frame: Vec<u8> = Vec::new();
    frame.push(0xaa);
    frame.push(0xec);
    frame.push((command % 256) as u8);
    frame.push((command / 256) as u8);
    frame.push(payload.len() as u8);
    let mut i: usize = 0;
    while i < payload.len()
        invariant
            i <= payload.len() <= 255,
            frame@ == request_magic() + command_bytes(command) + seq![payload@.len() as u8]
                + payload@.take(i as int),
        decreases payload.len() - i,
    {
        frame.push(payload[i]);
        i = i + 1;
    }
    assert(payload@.take(payload@.len() as int) == payload@);
    let sum = checksum(frame.as_slice());
    frame.push(sum);
    Ok(frame)
}

} // verus!
