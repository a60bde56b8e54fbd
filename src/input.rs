//! Edge detection on digital input lines, and the touch state that touch
//! events build up.
use vstd::prelude::*;
use crate::calibration::Coord;

verus! {

/// The slot value of a channel that has not been sampled yet; no line reads it.
pub const UNSAMPLED: u8 = 255;

/// Event type of key events; `BTN_TOUCH` under it reports contact.
pub const EV_KEY: u16 = 1;
/// Event type of absolute-position events.
pub const EV_ABS: u16 = 3;
/// Key code of touch contact: value 1 on start, 0 on stop.
pub const BTN_TOUCH: u16 = 330;
/// Absolute-position code of the raw x coordinate.
pub const ABS_X: u16 = 0;
/// Absolute-position code of the raw y coordinate.
pub const ABS_Y: u16 = 1;

/// A channel changed to `value`.
#[derive(Debug, Clone, Copy, PartialEq, Eq, Structural)]
pub struct Edge {
    pub channel: usize,
    pub value: u8,
}

/// The last observed value of each monitored channel.
pub struct InputDebouncer {
    prev: Vec<u8>,
}

impl View for InputDebouncer {
    type V = Seq<u8>;

    closed spec fn view(&self) -> Seq<u8> {
        self.prev@
    }
}

/// The event a poll of `channel` emits when its slot holds `prev` and the
/// line reads `value`: one on a change, none on a repeat.
pub open spec fn edge_of(channel: usize, prev: u8, value: u8) -> Option<Edge> {
    if value != prev {
        Some(Edge { channel, value })
    } else {
        None
    }
}

impl InputDebouncer {
    /// A debouncer whose slots start with `initial`.
    pub fn new(initial: Vec<u8>) -> (d: InputDebouncer)
        ensures
            d@ == initial@,
    {
        InputDebouncer { prev: initial }
    }

    /// A debouncer of `channels` channels, none sampled yet: the first poll
    /// of each emits its value.
    pub fn unsampled(channels: usize) -> (d: InputDebouncer)
        ensures
            d@ == Seq::new(channels as nat, |i: int| UNSAMPLED),
    {
        let mut prev: Vec<u8> = Vec::new();
        let mut i: usize = 0;
        while i < channels
            invariant
                i <= channels,
                prev@ == Seq::new(i as nat, |k: int| UNSAMPLED),
            decreases channels - i,
        {
            prev.push(UNSAMPLED);
            i = i + 1;
            assert(prev@ =~= Seq::new(i as nat, |k: int| UNSAMPLED));
        }
        InputDebouncer { prev }
    }

    /// The number of channels.
    pub fn channels(&self) -> (n: usize)
        ensures
            n == self@.len(),
    {
        self.prev.len()
    }

    /// The stored value of `channel`.
    pub fn previous(&self, channel: usize) -> (v: u8)
        requires
            channel < self@.len(),
        ensures
            v == self@[channel as int],
    {
        self.prev[channel]
    }

    /// Compares a new sample of `channel` with its stored value: on a change,
    /// stores it and emits the edge; on a repeat, emits nothing.
    pub fn poll(&mut self, channel: usize, value: u8) -> (e: Option<Edge>)
        requires
            channel < old(self)@.len(),
        ensures
            e == edge_of(channel, old(self)@[channel as int], value),
            final(self)@ == old(self)@.update(channel as int, value),
    {
        let prev = self.prev[channel];
        if value != prev {
            self.prev.set(channel, value);
            Some(Edge { channel, value })
        } else {
            assert(self.prev@ =~= self.prev@.update(channel as int, value));
            None
        }
    }
}

/// The events of polling `channel` with `samples` in order, starting from a
/// stored `initial`, where each poll behaves as `InputDebouncer::poll` states:
/// it emits `edge_of` the stored value and the sample, then stores the sample.
pub open spec fn poll_run(channel: usize, initial: u8, samples: Seq<u8>) -> Seq<Option<Edge>>
    decreases samples.len(),
{
    if samples.len() == 0 {
        Seq::empty()
    } else {
        let before = samples.drop_last();
        let stored = if before.len() == 0 { initial } else { before.last() };
        poll_run(channel, initial, before).push(edge_of(channel, stored, samples.last()))
    }
}

/// The sample that a poll at position `i` compares against: the one before
/// it, or `initial` for the first.
pub open spec fn previous_sample(initial: u8, samples: Seq<u8>, i: int) -> u8 {
    if i == 0 {
        initial
    } else {
        samples[i - 1]
    }
}

/// Polling one channel emits exactly one event, carrying the new value, at
/// each poll whose sample differs from the previous one, and none at a poll
/// that repeats it.
pub proof fn lemma_poll_run(channel: usize, initial: u8, samples: Seq<u8>)
    ensures
        poll_run(channel, initial, samples).len() == samples.len(),
        forall|i: int|
            0 <= i < samples.len() ==> #[trigger] poll_run(channel, initial, samples)[i] == if samples[i]
                != previous_sample(initial, samples, i) {
                Some(Edge { channel, value: samples[i] })
            } else {
                None
            },
    decreases samples.len(),
{
    if samples.len() > 0 {
        let before = samples.drop_last();
        lemma_poll_run(channel, initial, before);
        assert forall|i: int| 0 <= i < samples.len() implies #[trigger] poll_run(
            channel,
            initial,
            samples,
        )[i] == if samples[i] != previous_sample(initial, samples, i) {
            Some(Edge { channel, value: samples[i] })
        } else {
            None
        } by {
            if i < before.len() {
                assert(poll_run(channel, initial, samples)[i] == poll_run(channel, initial, before)[i]);
                assert(before[i] == samples[i]);
                if i > 0 {
                    assert(before[i - 1] == samples[i - 1]);
                }
            }
        }
    }
}

/// One event of the touch input stream.
#[derive(Debug, Clone, Copy, PartialEq, Eq, Structural)]
pub struct TouchEvent {
    pub kind: u16,
    pub code: u16,
    pub value: i32,
}

/// What the touch stream has reported so far: the latest raw position and
/// whether contact is active.
#[derive(Debug, Clone, Copy, PartialEq, Eq, Structural)]
pub struct TouchState {
    pub raw: Coord,
    pub touching: bool,
}

/// The touch state after one event.
pub open spec fn touch_after(s: TouchState, ev: TouchEvent) -> TouchState {
    if ev.kind == EV_KEY && ev.code == BTN_TOUCH {
        TouchState { touching: ev.value == 1, ..s }
    } else if ev.kind == EV_ABS && ev.code == ABS_X {
        TouchState { raw: Coord { x: ev.value, ..s.raw }, ..s }
    } else if ev.kind == EV_ABS && ev.code == ABS_Y {
        TouchState { raw: Coord { y: ev.value, ..s.raw }, ..s }
    } else {
        s
    }
}

/// The touch state after a sequence of events, applied in order.
pub open spec fn touch_after_all(s: TouchState, evs: Seq<TouchEvent>) -> TouchState
    decreases evs.len(),
{
    if evs.len() == 0 {
        s
    } else {
        touch_after(touch_after_all(s, evs.drop_last()), evs.last())
    }
}

impl TouchState {
    /// No contact, at the origin.
    pub fn new() -> (s: TouchState)
        ensures
            s == (TouchState { raw: Coord { x: 0, y: 0 }, touching: false }),
    {
        TouchState { raw: Coord { x: 0, y: 0 }, touching: false }
    }

    /// Takes one event into account; events of other kinds leave it unchanged.
    pub fn apply_event(&mut self, ev: &TouchEvent)
        ensures
            *final(self) == touch_after(*old(self), *ev),
    {
        if ev.kind == EV_KEY && ev.code == BTN_TOUCH {
            self.touching = ev.value == 1;
        } else if ev.kind == EV_ABS && ev.code == ABS_X {
            self.raw.x = ev.value;
        } else if ev.kind == EV_ABS && ev.code == ABS_Y {
            self.raw.y = ev.value;
        }
    }

    /// Takes a batch of events into account, in order.
    pub fn apply_events(&mut self, evs: &Vec<TouchEvent>)
        ensures
            *final(self) == touch_after_all(*old(self), evs@),
    {
        let ghost start = *self;
        let mut i: usize = 0;
        while i < evs.len()
            invariant
                i <= evs@.len(),
                *self == touch_after_all(start, evs@.take(i as int)),
            decreases evs@.len() - i,
        {
            assert(evs@.take(i + 1).drop_last() =~= evs@.take(i as int));
            self.apply_event(&evs[i]);
            i = i + 1;
        }
        assert(evs@.take(evs@.len() as int) =~= evs@);
    }
}

} // verus!
