//! S260 state events: decoding of `BB EC` push frames into typed events, and
//! the decisions of the blocking event loop (delivery, read, bounded
//! exponential reconnect backoff). The loop itself, with its socket, clock
//! and sleeps, is run by the caller.
use vstd::prelude::*;

use crate::aaec::{self, frame_views, Frame, FrameDecoder, SpecFrame};
use crate::device::{
    airplay_name, aux_name, bluetooth_name, usb_name, DeviceEvent, EventView, Source,
};
use crate::s260::error::{Error, Result};
use crate::s260::model::{playback_name, playback_state};
use crate::text::{decimal, push_decimal, push_str};

verus! {

/// Input source changed.
pub const INPUT_EVENT: u16 = 0x0061;

/// Volume changed.
pub const VOLUME_EVENT: u16 = 0x0066;

/// Playback state changed.
pub const PLAYBACK_EVENT: u16 = 0x0068;

/// Track metadata.
pub const TRACK_INFO_EVENT: u16 = 0x0050;

/// Equalizer preset changed.
pub const EQ_EVENT: u16 = 0x00d5;

/// Equalizer preset acknowledged.
pub const EQ_ACK_EVENT: u16 = 0x00c4;

/// Sub-command of an input event that carries the selected source.
pub const INPUT_SUBCOMMAND: u8 = 0x1e;

/// Backoff before the first reconnect attempt, in milliseconds.
pub const INITIAL_RECONNECT_DELAY_MS: u64 = 200;

/// Upper bound of the reconnect backoff, in milliseconds.
pub const MAX_RECONNECT_DELAY_MS: u64 = 5000;

/// Longest single blocking read, in milliseconds.
pub const READ_SLICE_MS: u64 = 500;

/// The source that a binary input event names (indices start at 1).
pub open spec fn binary_source_name(index: u8) -> Option<Seq<char>> {
    if index == 1 {
        Some(bluetooth_name())
    } else if index == 2 {
        Some(aux_name())
    } else if index == 3 {
        Some(usb_name())
    } else if index == 4 {
        Some(airplay_name())
    } else {
        None
    }
}

/// Maps the source byte of a binary input event to a source.
pub fn binary_source(index: u8) -> (r: Option<Source>)
    ensures
        match r {
            Some(s) => binary_source_name(index) == Some(s@),
            None => binary_source_name(index) is None,
        },
{
    match index {
        1 => Some(Source::bluetooth()),
        2 => Some(Source::aux()),
        3 => Some(Source::usb()),
        4 => Some(Source::airplay()),
        _ => None,
    }
}

/// `"invalid volume event: current=<current>, max=<max>"`.
pub open spec fn volume_event_message(current: u8, max: u8) -> Seq<char> {
    "invalid volume event: current="@ + decimal(current as nat) + ", max="@ + decimal(max as nat)
}

/// The event a frame carries, or the protocol error message for a volume
/// event whose current value exceeds its maximum.
pub open spec fn event_of_frame(f: SpecFrame) -> std::result::Result<EventView, Seq<char>> {
    let p = f.payload;
    if f.command == INPUT_EVENT && p.len() >= 2 && p[0] == INPUT_SUBCOMMAND {
        match binary_source_name(p[1]) {
            Some(name) => Ok(EventView::Source(name)),
            None => Ok(EventView::Unknown { command: f.command, payload: p }),
        }
    } else if f.command == VOLUME_EVENT && p.len() >= 2 {
        if p[1] <= p[0] {
            Ok(EventView::Volume { current: p[1], max: p[0] })
        } else {
            Err(volume_event_message(p[1], p[0]))
        }
    } else if f.command == PLAYBACK_EVENT && p.len() >= 1 && p[0] <= 2 {
        Ok(EventView::Playback(playback_name(p[0] as u64)))
    } else if (f.command == EQ_EVENT || f.command == EQ_ACK_EVENT) && p.len() >= 1 {
        Ok(EventView::Equalizer(p[0]))
    } else if f.command == TRACK_INFO_EVENT {
        Ok(EventView::TrackInfo(p))
    } else {
        Ok(EventView::Unknown { command: f.command, payload: p })
    }
}


/// The source numbering of push events is the status numbering plus one.
pub proof fn binary_source_numbering(index: u8)
    ensures
        index >= 1 ==> binary_source_name(index) == crate::s260::model::source_for_index(
            (index - 1) as u64,
        ),
        index == 0 ==> binary_source_name(index) is None,
{
}

/// A decoded volume event never reports a current volume above its maximum.
pub proof fn volume_events_are_in_range(f: SpecFrame)
    ensures
        event_of_frame(f) matches Ok(EventView::Volume { current, max }) ==> current <= max,
{
}


/// A volume event `[max, current, ..]` decodes to exactly that current and
/// maximum volume whenever the current volume does not exceed the maximum
/// (the maximum itself included), and is refused as a protocol error
/// otherwise.
pub proof fn volume_events_decode_exactly(f: SpecFrame)
    requires
        f.command == VOLUME_EVENT,
        f.payload.len() >= 2,
    ensures
        f.payload[1] <= f.payload[0] ==> event_of_frame(f) == std::result::Result::<
            EventView,
            Seq<char>,
        >::Ok(EventView::Volume { current: f.payload[1], max: f.payload[0] }),
        f.payload[1] > f.payload[0] ==> event_of_frame(f) is Err,
{
}

/// A frame whose command the driver does not know is reported as an unknown
/// event carrying its command and its undecoded payload.
pub proof fn unknown_commands_keep_their_payload(f: SpecFrame)
    requires
        f.command != INPUT_EVENT,
        f.command != VOLUME_EVENT,
        f.command != PLAYBACK_EVENT,
        f.command != EQ_EVENT,
        f.command != EQ_ACK_EVENT,
        f.command != TRACK_INFO_EVENT,
    ensures
        event_of_frame(f) == std::result::Result::<EventView, Seq<char>>::Ok(
            EventView::Unknown { command: f.command, payload: f.payload },
        ),
{
}

/// Decodes one validated push frame into a typed event.
pub fn decode_event(frame: Frame) -> (r: Result<DeviceEvent>)
    ensures
        match r {
            Ok(e) => event_of_frame(frame@) == std::result::Result::<EventView, Seq<char>>::Ok(
                e@,
            ),
            Err(Error::Protocol(m)) => event_of_frame(frame@)
                == std::result::Result::<EventView, Seq<char>>::Err(m@),
            Err(_) => false,
        },
        frame.command == VOLUME_EVENT && frame.payload@.len() >= 2 ==> (r matches Ok(
            DeviceEvent::Volume { current, max },
        ) && current == frame.payload@[1] && max == frame.payload@[0]) == (frame.payload@[1]
            <= frame.payload@[0]),
{
    let command = frame.command;
    let n = frame.payload.len();
    if command == INPUT_EVENT && n >= 2 && frame.payload[0] == INPUT_SUBCOMMAND {
        match binary_source(frame.payload[1]) {
            Some(source) => Ok(DeviceEvent::Source { source }),
            None => Ok(DeviceEvent::Unknown { command, payload: frame.payload }),
        }
    } else if command == VOLUME_EVENT && n >= 2 {
        let max = frame.payload[0];
        let current = frame.payload[1];
        if current <= max {
            Ok(DeviceEvent::Volume { current, max })
        } else {
            let mut message = String::new();
            push_str(&mut message, "invalid volume event: current=");
            push_decimal(&mut message, current as u128);
            push_str(&mut message, ", max=");
            push_decimal(&mut message, max as u128);
            Err(Error::Protocol(message))
        }
    } else if command == PLAYBACK_EVENT && n >= 1 && frame.payload[0] <= 2 {
        Ok(DeviceEvent::Playback { state: playback_state(frame.payload[0] as u64) })
    } else if (command == EQ_EVENT || command == EQ_ACK_EVENT) && n >= 1 {
        Ok(DeviceEvent::Equalizer { preset: frame.payload[0] })
    } else if command == TRACK_INFO_EVENT {
        Ok(DeviceEvent::TrackInfo { payload: frame.payload })
    } else {
        Ok(DeviceEvent::Unknown { command, payload: frame.payload })
    }
}


/// The events that a run of frames adds to the queue, in order, skipping
/// heartbeats, and the protocol error that stops the run, if any.
pub open spec fn absorb(frames: Seq<SpecFrame>) -> (Seq<EventView>, Option<Seq<char>>)
    decreases frames.len(),
{
    if frames.len() == 0 {
        (Seq::empty(), None)
    } else if frames[0].command == aaec::HEARTBEAT_COMMAND {
        absorb(frames.drop_first())
    } else {
        match event_of_frame(frames[0]) {
            Ok(e) => {
                let rest = absorb(frames.drop_first());
                (seq![e] + rest.0, rest.1)
            },
            Err(m) => (Seq::empty(), Some(m)),
        }
    }
}

/// The views of a sequence of events.
pub open spec fn event_views(events: Seq<DeviceEvent>) -> Seq<EventView> {
    events.map_values(|e: DeviceEvent| e@)
}

/// `"event wait must be greater than zero"`.
pub open spec fn zero_wait_message() -> Seq<char> {
    "event wait must be greater than zero"@
}

/// `"event wait is too large"`.
pub open spec fn long_wait_message() -> Seq<char> {
    "event wait is too large"@
}

/// `"speaker closed the connection"`.
pub open spec fn closed_message() -> Seq<char> {
    "speaker closed the connection"@
}


/// The backoff after one more failure: doubled, up to its bound.
pub open spec fn next_delay(delay: u64) -> u64 {
    min((2 * delay) as u64, MAX_RECONNECT_DELAY_MS)
}

/// The backoff after `failures` consecutive failures since the last
/// successful connection.
pub open spec fn delay_after(failures: nat) -> u64
    decreases failures,
{
    if failures == 0 {
        INITIAL_RECONNECT_DELAY_MS
    } else {
        next_delay(delay_after((failures - 1) as nat))
    }
}

/// Two to the power `n`.
pub open spec fn pow2(n: nat) -> nat
    decreases n,
{
    if n == 0 {
        1
    } else {
        2 * pow2((n - 1) as nat)
    }
}

/// After `k` consecutive failures the next reconnect waits
/// `min(200 * 2^k, 5000)` milliseconds: exponential, and bounded.
pub proof fn backoff_is_exponential_and_bounded(k: nat)
    ensures
        delay_after(k) == if 200 * pow2(k) <= 5000 {
            200 * pow2(k)
        } else {
            5000
        },
    decreases k,
{
    if k > 0 {
        backoff_is_exponential_and_bounded((k - 1) as nat);
        assert(pow2(k) == 2 * pow2((k - 1) as nat));
    }
}

/// What the event loop does next.
pub enum EventStep {
    /// Return this result to the caller of `next_event`.
    Return(Result<Option<DeviceEvent>>),
    /// Sleep this many milliseconds, then ask again.
    Sleep(u64),
    /// Try to open the event connection within this many milliseconds.
    Connect(u64),
    /// Read from the open connection, waiting at most this many milliseconds.
    Read(u64),
}

/// State of the S260 event stream between calls: whether the connection is
/// open, the frame decoder, decoded events not yet delivered, and the
/// reconnect schedule.
pub struct EventMachine {
    connected: bool,
    decoder: FrameDecoder,
    pending: Vec<DeviceEvent>,
    reconnect_at_ms: u64,
    reconnect_delay_ms: u64,
    last_error: Option<String>,
}

/// The smaller of two numbers.
pub open spec fn min(a: u64, b: u64) -> u64 {
    if a <= b {
        a
    } else {
        b
    }
}

impl EventMachine {
    /// Whether the event connection is open.
    pub closed spec fn is_connected(&self) -> bool {
        self.connected
    }

    /// Bytes held by the frame decoder.
    pub closed spec fn decoder_pending(&self) -> Seq<u8> {
        self.decoder.pending()
    }

    /// Decoded events not yet delivered, oldest first.
    pub closed spec fn queued(&self) -> Seq<EventView> {
        event_views(self.pending@)
    }

    /// When the next reconnect attempt may start.
    pub closed spec fn reconnect_at(&self) -> u64 {
        self.reconnect_at_ms
    }

    /// The backoff applied after the next failure.
    pub closed spec fn reconnect_delay(&self) -> u64 {
        self.reconnect_delay_ms
    }

    /// The last connection failure, kept until a connection succeeds.
    pub closed spec fn last_failure(&self) -> Option<Seq<char>> {
        match self.last_error {
            Some(e) => Some(e@),
            None => None,
        }
    }

    /// The backoff stays within its bounds.
    pub open spec fn wf(&self) -> bool {
        INITIAL_RECONNECT_DELAY_MS <= self.reconnect_delay() <= MAX_RECONNECT_DELAY_MS
    }

    /// The state right after the event connection has been opened at `now_ms`.
    pub fn new(now_ms: u64) -> (m: Self)
        ensures
            m.wf(),
            m.is_connected(),
            m.decoder_pending() == Seq::<u8>::empty(),
            m.queued() == Seq::<EventView>::empty(),
            m.reconnect_at() == now_ms,
            m.reconnect_delay() == INITIAL_RECONNECT_DELAY_MS,
            m.last_failure() is None,
    {
        let m = EventMachine {
            connected: true,
            decoder: FrameDecoder::new(),
            pending: Vec::new(),
            reconnect_at_ms: now_ms,
            reconnect_delay_ms: INITIAL_RECONNECT_DELAY_MS,
            last_error: None,
        };
        assert(m.queued() =~= Seq::<EventView>::empty());
        m
    }

    /// The deadline of a call that waits at most `max_wait_ms` from `now_ms`.
    pub fn deadline(now_ms: u64, max_wait_ms: u64) -> (r: Result<u64>)
        ensures
            match r {
                Ok(d) => max_wait_ms > 0 && d == now_ms + max_wait_ms,
                Err(Error::Protocol(m)) => (max_wait_ms == 0 && m@ == zero_wait_message()) || (
                max_wait_ms > 0 && now_ms + max_wait_ms > u64::MAX && m@ == long_wait_message()),
                Err(_) => false,
            },
    {
        if max_wait_ms == 0 {
            return Err(Error::Protocol(String::from_str("event wait must be greater than zero")));
        }
        match now_ms.checked_add(max_wait_ms) {
            Some(d) => Ok(d),
            None => Err(Error::Protocol(String::from_str("event wait is too large"))),
        }
    }

    /// Decides the next step of a call whose deadline is `deadline_ms`.
    ///
    /// A queued event is delivered first. Once the deadline has passed the
    /// call returns nothing, or the last reconnect failure while the
    /// connection is down. A closed connection is reopened only when its
    /// backoff has elapsed; until then the loop sleeps instead of spinning.
    pub fn next_step(&mut self, now_ms: u64, deadline_ms: u64, connect_timeout_ms: u64) -> (step:
        EventStep)
        requires
            old(self).wf(),
        ensures
            final(self).wf(),
            final(self).is_connected() == old(self).is_connected(),
            final(self).decoder_pending() == old(self).decoder_pending(),
            final(self).reconnect_at() == old(self).reconnect_at(),
            final(self).reconnect_delay() == old(self).reconnect_delay(),
            final(self).last_failure() == old(self).last_failure(),
            old(self).queued().len() > 0 ==> (step matches EventStep::Return(Ok(Some(e)))
                && e@ == old(self).queued()[0] && final(self).queued() == old(
                self,
            ).queued().drop_first()),
            old(self).queued().len() == 0 ==> final(self).queued() == old(self).queued(),
            old(self).queued().len() == 0 && now_ms >= deadline_ms ==> match step {
                EventStep::Return(Ok(None)) => old(self).is_connected() || old(
                    self,
                ).last_failure() is None,
                EventStep::Return(Err(Error::Reconnect(m))) => !old(self).is_connected() && old(
                    self,
                ).last_failure() == Some(m@),
                _ => false,
            },
            old(self).queued().len() == 0 && now_ms < deadline_ms && !old(self).is_connected()
                && now_ms < old(self).reconnect_at() ==> step == EventStep::Sleep(
                min((deadline_ms - now_ms) as u64, (old(self).reconnect_at() - now_ms) as u64),
            ),
            old(self).queued().len() == 0 && now_ms < deadline_ms && !old(self).is_connected()
                && now_ms >= old(self).reconnect_at() ==> step == EventStep::Connect(
                min((deadline_ms - now_ms) as u64, connect_timeout_ms),
            ),
            old(self).queued().len() == 0 && now_ms < deadline_ms && old(self).is_connected()
                ==> step == EventStep::Read(min((deadline_ms - now_ms) as u64, READ_SLICE_MS)),
    {
        if self.pending.len() > 0 {
            let ghost before = self.pending@;
            let event = self.pending.remove(0);
            proof {
                assert(self.pending@ == before.drop_first());
                assert(event_views(self.pending@) =~= event_views(before).drop_first());
            }
            return EventStep::Return(Ok(Some(event)));
        }
        if now_ms >= deadline_ms {
            return EventStep::Return(
                match (self.connected, &self.last_error) {
                    (false, Some(error)) => Err(Error::Reconnect(error.clone())),
                    _ => Ok(None),
                },
            );
        }
        let remaining = deadline_ms - now_ms;
        if !self.connected {
            if now_ms < self.reconnect_at_ms {
                let until = self.reconnect_at_ms - now_ms;
                return EventStep::Sleep(if remaining <= until { remaining } else { until });
            }
            return EventStep::Connect(
                if remaining <= connect_timeout_ms {
                    remaining
                } else {
                    connect_timeout_ms
                },
            );
        }
        EventStep::Read(if remaining <= READ_SLICE_MS { remaining } else { READ_SLICE_MS })
    }

    /// Records that the event connection has been reopened: the decoder starts
    /// afresh, the backoff is reset and the last failure is forgotten.
    pub fn connection_opened(&mut self)
        requires
            old(self).wf(),
        ensures
            final(self).wf(),
            final(self).is_connected(),
            final(self).decoder_pending() == Seq::<u8>::empty(),
            final(self).queued() == old(self).queued(),
            final(self).reconnect_at() == old(self).reconnect_at(),
            final(self).reconnect_delay() == INITIAL_RECONNECT_DELAY_MS,
            final(self).last_failure() is None,
    {
        self.connected = true;
        self.decoder = FrameDecoder::new();
        self.reconnect_delay_ms = INITIAL_RECONNECT_DELAY_MS;
        self.last_error = None;
    }

    /// Records a failed connect, a closed connection or a failed read at
    /// `now_ms`: the connection is dropped, the next attempt waits for the
    /// current backoff, and the backoff doubles up to its bound.
    pub fn connection_lost(&mut self, now_ms: u64, message: String)
        requires
            old(self).wf(),
        ensures
            final(self).wf(),
            !final(self).is_connected(),
            final(self).decoder_pending() == Seq::<u8>::empty(),
            final(self).queued() == old(self).queued(),
            final(self).last_failure() == Some(message@),
            final(self).reconnect_at() == if now_ms + old(self).reconnect_delay() <= u64::MAX {
                (now_ms + old(self).reconnect_delay()) as u64
            } else {
                now_ms
            },
            final(self).reconnect_delay() == next_delay(old(self).reconnect_delay()),
    {
        self.connected = false;
        self.decoder = FrameDecoder::new();
        self.last_error = Some(message);
        self.reconnect_at_ms = match now_ms.checked_add(self.reconnect_delay_ms) {
            Some(at) => at,
            None => now_ms,
        };
        let doubled = self.reconnect_delay_ms * 2;
        self.reconnect_delay_ms = if doubled <= MAX_RECONNECT_DELAY_MS {
            doubled
        } else {
            MAX_RECONNECT_DELAY_MS
        };
    }

    /// Records bytes read from the connection: every complete frame is
    /// decoded and its event queued, heartbeats are skipped, and a malformed
    /// volume event stops the batch with a protocol error.
    pub fn bytes_received(&mut self, bytes: &[u8]) -> (r: Result<()>)
        requires
            old(self).wf(),
        ensures
            final(self).wf(),
            final(self).is_connected() == old(self).is_connected(),
            final(self).reconnect_at() == old(self).reconnect_at(),
            final(self).reconnect_delay() == old(self).reconnect_delay(),
            final(self).last_failure() == old(self).last_failure(),
            final(self).decoder_pending() == aaec::decode_spec(
                old(self).decoder_pending() + bytes@,
            ).1,
            final(self).queued() == old(self).queued() + absorb(
                aaec::decode_spec(old(self).decoder_pending() + bytes@).0,
            ).0,
            match r {
                Ok(()) => absorb(aaec::decode_spec(old(self).decoder_pending() + bytes@).0).1
                    is None,
                Err(Error::Protocol(m)) => absorb(
                    aaec::decode_spec(old(self).decoder_pending() + bytes@).0,
                ).1 == Some(m@),
                Err(_) => false,
            },
    {
        let mut frames = self.decoder.feed(bytes);
        let ghost all = frame_views(frames@);
        let ghost start = self.pending@;
        assert(all.skip(0) == all);
        while frames.len() > 0
            invariant
                frame_views(frames@) == all.skip(all.len() - frames@.len()),
                frames@.len() <= all.len(),
                absorb(all) == (
                    event_views(self.pending@).subrange(
                        event_views(start).len() as int,
                        event_views(self.pending@).len() as int,
                    ) + absorb(frame_views(frames@)).0,
                    absorb(frame_views(frames@)).1,
                ),
                event_views(self.pending@).subrange(0, event_views(start).len() as int)
                    == event_views(start),
                event_views(start).len() <= event_views(self.pending@).len(),
                old(self).wf(),
                start == old(self).pending@,
                all == aaec::decode_spec(old(self).decoder.pending() + bytes@).0,
                self.reconnect_delay_ms == old(self).reconnect_delay_ms,
                self.reconnect_at_ms == old(self).reconnect_at_ms,
                self.connected == old(self).connected,
                self.last_error == old(self).last_error,
                self.decoder.pending() == aaec::decode_spec(old(self).decoder.pending() + bytes@).1,
            ensures
                absorb(all).1 is None,
                event_views(self.pending@) == event_views(start) + absorb(all).0,
            decreases frames.len(),
        {
            let ghost fs = frame_views(frames@);
            let frame = frames.remove(0);
            proof {
                assert(frame_views(frames@) =~= fs.drop_first());
                assert(fs[0] == frame@);
                assert(all.skip(all.len() - frames@.len()) =~= fs.drop_first());
            }
            if frame.is_heartbeat() {
                continue;
            }
            match decode_event(frame) {
                Ok(event) => {
                    let ghost before = self.pending@;
                    self.pending.push(event);
                    proof {
                        assert(event_views(self.pending@) =~= event_views(before).push(event@));
                        let n = event_views(start).len() as int;
                        assert(event_views(self.pending@).subrange(n, event_views(self.pending@).len() as int)
                            =~= event_views(before).subrange(n, event_views(before).len() as int).push(event@));
                        assert(event_views(self.pending@).subrange(0, n) =~= event_views(before).subrange(0, n));
                    }
                },
                Err(error) => {
                    proof {
                        let n = event_views(start).len() as int;
                        assert(absorb(fs).0 =~= Seq::<EventView>::empty());
                        assert(event_views(self.pending@) =~= event_views(self.pending@).subrange(0, n)
                            + event_views(self.pending@).subrange(n, event_views(self.pending@).len() as int));
                    }
                    return Err(error);
                },
            }
        }
        proof {
            let n = event_views(start).len() as int;
            assert(event_views(self.pending@) =~= event_views(self.pending@).subrange(0, n)
                + event_views(self.pending@).subrange(n, event_views(self.pending@).len() as int));
        }
        Ok(())
    }
}

} // verus!
